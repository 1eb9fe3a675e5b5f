use vstd::prelude::*;

verus! {

/// Two raised to the power `e`.
pub open spec fn two_pow(e: nat) -> nat
    decreases e,
{
    if e == 0 {
        1
    } else {
        2 * two_pow((e - 1) as nat)
    }
}

/// `r` is the floor of the base-2 logarithm of `n`.
pub open spec fn is_floor_log2(n: int, r: nat) -> bool {
    two_pow(r) <= n < two_pow(r + 1)
}

proof fn lemma_two_pow_positive(e: nat)
    ensures
        two_pow(e) >= 1,
    decreases e,
{
    if e > 0 {
        lemma_two_pow_positive((e - 1) as nat);
    }
}

proof fn lemma_two_pow_monotone(a: nat, b: nat)
    requires
        a <= b,
    ensures
        two_pow(a) <= two_pow(b),
    decreases b - a,
{
    if a < b {
        lemma_two_pow_monotone(a, (b - 1) as nat);
        lemma_two_pow_positive((b - 1) as nat);
    }
}

proof fn lemma_two_pow_exceeds_usize(e: nat)
    requires
        e >= 64,
    ensures
        two_pow(e) > usize::MAX,
{
    reveal_with_fuel(two_pow, 65);
    lemma_two_pow_monotone(64, e);
}

proof fn lemma_halving_step(p: nat, rest: int, num: int)
    requires
        rest >= 2,
        p * rest <= num,
        num < p * (rest + 1),
    ensures
        (2 * p) * (rest / 2) <= num,
        num < (2 * p) * (rest / 2 + 1),
{
    let h = rest / 2;
    assert(2 * h <= rest && rest + 1 <= 2 * h + 2);
    assert(p * (2 * h) <= p * rest) by (nonlinear_arith)
        requires 2 * h <= rest, p >= 0;
    assert(p * (rest + 1) <= p * (2 * h + 2)) by (nonlinear_arith)
        requires rest + 1 <= 2 * h + 2, p >= 0;
    assert((2 * p) * h == p * (2 * h)) by (nonlinear_arith);
    assert((2 * p) * (h + 1) == p * (2 * h + 2)) by (nonlinear_arith);
}

/// The floor of the base-2 logarithm of `num`, for `num >= 1`.
pub fn log2_floor(num: usize) -> (r: u32)
    requires
        num > 0,
    ensures
        is_floor_log2(num as int, r as nat),
{
    let mut pow: u32 = 0;
    let mut rest: usize = num;
    assert(two_pow(0) == 1);
    while rest > 1
        invariant
            1 <= rest <= num,
            pow < 64,
            two_pow(pow as nat) * rest <= num,
            num < two_pow(pow as nat) * (rest + 1),
        decreases rest,
    {
        proof {
            lemma_halving_step(two_pow(pow as nat), rest as int, num as int);
            let next: nat = (pow + 1) as nat;
            assert(two_pow(next) <= num) by (nonlinear_arith)
                requires
                    two_pow(next) * (rest / 2) <= num,
                    rest / 2 >= 1,
                    two_pow(next) >= 0,
            ;
            if next >= 64 {
                lemma_two_pow_exceeds_usize(next);
            }
        }
        rest = rest / 2;
        pow = pow + 1;
    }
    assert(rest == 1);
    assert(two_pow((pow + 1) as nat) == 2 * two_pow(pow as nat));
    pow
}

} // verus!
