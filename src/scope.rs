use vstd::prelude::*;
use crate::partition::chunk_size;
use crate::worker::Worker;

verus! {

#[verifier::external_type_specification]
#[verifier::external_body]
pub struct ExScope<'scope>(rayon::Scope<'scope>);

/// Relies on `rayon::scope`: `op` runs once, on a pool thread, with a fresh
/// scope; the call returns what `op` returned, after every task spawned in
/// that scope has finished.
pub assume_specification<'scope, OP, R>[ rayon::scope::<'scope, OP, R> ](op: OP) -> (r: R)
    where
        OP: FnOnce(&rayon::Scope<'scope>) -> R + Send,
        R: Send,
    requires
        forall|s: &rayon::Scope<'scope>| #[trigger] op.requires((s,)),
    ensures
        exists|s: &rayon::Scope<'scope>| #[trigger] op.ensures((s,), r),
;

/// Relies on `rayon::in_place_scope`: `op` runs once, on the calling thread,
/// with a fresh scope; the call returns what `op` returned, after every task
/// spawned in that scope has finished.
pub assume_specification<'scope, OP, R>[ rayon::in_place_scope::<'scope, OP, R> ](op: OP) -> (r: R)
    where
        OP: FnOnce(&rayon::Scope<'scope>) -> R,
    requires
        forall|s: &rayon::Scope<'scope>| #[trigger] op.requires((s,)),
    ensures
        exists|s: &rayon::Scope<'scope>| #[trigger] op.ensures((s,), r),
;

impl Worker {
    /// Runs `f` in a new scope of the pool, handing it the scope and the
    /// chunk size for `elements` elements; returns what `f` returns, once
    /// every task that `f` spawned in the scope has finished.
    pub fn scope<'a, F, R>(&self, elements: usize, f: F) -> (r: R)
        where
            F: FnOnce(&rayon::Scope<'a>, usize) -> R + Send,
            R: Send,
        requires
            forall|s: &rayon::Scope<'a>, c: usize|
                c == chunk_size(elements as int, self.workers()) ==> #[trigger] f.requires((s, c)),
        ensures
            exists|s: &rayon::Scope<'a>, c: usize|
                c == chunk_size(elements as int, self.workers()) && #[trigger] f.ensures((s, c), r),
    {
        let chunk = self.get_chunk_size(elements);
        let op = move |scope: &rayon::Scope<'a>| -> (r: R)
            requires
                f.requires((scope, chunk)),
            ensures
                f.ensures((scope, chunk), r),
            { f(scope, chunk) };
        assert forall|s: &rayon::Scope<'a>| #[trigger] op.requires((s,)) by {
            assert(f.requires((s, chunk)));
        }
        let r = rayon::scope(op);
        proof {
            let s = choose|s: &rayon::Scope<'a>| #[trigger] op.ensures((s,), r);
            assert(f.ensures((s, chunk), r));
        }
        r
    }

    /// As `scope`, but `f` runs on the calling thread rather than being
    /// handed to a pool thread: for callers that already run inside the pool.
    pub fn in_place_scope<'a, F, R>(&self, elements: usize, f: F) -> (r: R)
        where
            F: FnOnce(&rayon::Scope<'a>, usize) -> R,
        requires
            forall|s: &rayon::Scope<'a>, c: usize|
                c == chunk_size(elements as int, self.workers()) ==> #[trigger] f.requires((s, c)),
        ensures
            exists|s: &rayon::Scope<'a>, c: usize|
                c == chunk_size(elements as int, self.workers()) && #[trigger] f.ensures((s, c), r),
    {
        let chunk = self.get_chunk_size(elements);
        let op = move |scope: &rayon::Scope<'a>| -> (r: R)
            requires
                f.requires((scope, chunk)),
            ensures
                f.ensures((scope, chunk), r),
            { f(scope, chunk) };
        assert forall|s: &rayon::Scope<'a>| #[trigger] op.requires((s,)) by {
            assert(f.requires((s, chunk)));
        }
        let r = rayon::in_place_scope(op);
        proof {
            let s = choose|s: &rayon::Scope<'a>| #[trigger] op.ensures((s,), r);
            assert(f.ensures((s, chunk), r));
        }
        r
    }
}

} // verus!
