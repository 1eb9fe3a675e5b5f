use vstd::prelude::*;
use vstd::arithmetic::div_mod::{
    lemma_fundamental_div_mod,
    lemma_fundamental_div_mod_converse,
};

verus! {

/// `n / d` rounded up, for `n >= 0` and `d >= 1`.
pub open spec fn ceil_div(n: int, d: int) -> int {
    if n % d == 0 {
        n / d
    } else {
        n / d + 1
    }
}

/// Number of elements handed to one task when `n` elements are spread
/// over `workers` workers: one each while there are no more elements than
/// workers, else an even share rounded up.
pub open spec fn chunk_size(n: int, workers: int) -> int {
    if n <= workers {
        1
    } else {
        ceil_div(n, workers)
    }
}

/// Number of tasks that cover `n` elements in chunks of `chunk_size(n, workers)`.
pub open spec fn task_count(n: int, workers: int) -> int {
    if n <= workers {
        n
    } else {
        ceil_div(n, chunk_size(n, workers))
    }
}

/// `ceil_div(n, d)` is the least number of blocks of `d` that hold `n`.
pub proof fn lemma_ceil_div_bounds(n: int, d: int)
    requires
        n >= 0,
        d >= 1,
    ensures
        ceil_div(n, d) >= 0,
        ceil_div(n, d) * d >= n,
        (ceil_div(n, d) - 1) * d < n,
{
    lemma_fundamental_div_mod(n, d);
    let q = n / d;
    let r = n % d;
    assert(0 <= r < d);
    assert(q >= 0) by (nonlinear_arith)
        requires n == d * q + r, r < d, d >= 1, n >= 0;
    if r == 0 {
        assert(q * d == d * q) by (nonlinear_arith);
        assert((q - 1) * d == d * q - d) by (nonlinear_arith);
    } else {
        assert((q + 1) * d == d * q + d) by (nonlinear_arith);
        assert(q * d == d * q) by (nonlinear_arith);
    }
}

/// Whatever the element count and the worker count, the tasks that the
/// partition describes cover every element, and there are never more of them
/// than twice the number of workers.
pub proof fn lemma_partition_covers(n: int, workers: int)
    requires
        n >= 1,
        workers >= 1,
    ensures
        chunk_size(n, workers) >= 1,
        task_count(n, workers) >= 1,
        chunk_size(n, workers) * task_count(n, workers) >= n,
        task_count(n, workers) <= 2 * workers,
{
    if n > workers {
        lemma_ceil_div_bounds(n, workers);
        let c = ceil_div(n, workers);
        assert(c >= 1) by (nonlinear_arith)
            requires c * workers >= n, n >= 1, workers >= 1, c >= 0;
        lemma_ceil_div_bounds(n, c);
        let t = ceil_div(n, c);
        // t blocks of c are needed, and `workers` blocks of c already hold n.
        assert(t <= workers) by (nonlinear_arith)
            requires (t - 1) * c < n, c * workers >= n, c >= 1;
        assert(t >= 1) by (nonlinear_arith)
            requires t * c >= n, n >= 1, t >= 0, c >= 1;
        assert(c * t == t * c) by (nonlinear_arith);
    }
}

/// The chunk size at its boundary values: one while there are no more
/// elements than workers, `q` for exactly `workers * q` elements, and
/// `q + 1` for `workers * q + r` elements with `0 < r < workers`.
pub proof fn lemma_chunk_size_exact(workers: int, q: int, r: int)
    requires
        workers >= 1,
        q >= 0,
        0 <= r < workers,
    ensures
        forall|n: int| n <= workers ==> #[trigger] chunk_size(n, workers) == 1,
        q >= 1 ==> chunk_size(workers * q, workers) == q,
        r > 0 ==> chunk_size(workers * q + r, workers) == q + 1,
{
    let m = workers * q;
    let n = m + r;
    assert(m == q * workers + 0) by (nonlinear_arith)
        requires m == workers * q;
    lemma_fundamental_div_mod_converse(m, workers, q, 0);
    lemma_fundamental_div_mod_converse(n, workers, q, r);
    if q >= 1 && m <= workers {
        assert(q <= 1) by (nonlinear_arith)
            requires workers * q <= workers, workers >= 1;
    }
    if r > 0 && n <= workers {
        assert(q == 0) by (nonlinear_arith)
            requires workers * q + r <= workers, r > 0, q >= 0, workers >= 1;
    }
}

} // verus!
