use vstd::prelude::*;
use std::sync::atomic::{AtomicUsize, Ordering};
use std::sync::Arc;

verus! {

/// The default number of outstanding detached tasks allowed per worker
/// before new submissions stop being queued.
pub const SPAWN_THRESHOLD_FACTOR: usize = 4;

/// How a detached task is run.
#[derive(Clone, Copy, Debug, PartialEq, Eq, Structural)]
pub enum Strategy {
    /// Queue the task for an idle worker and return at once.
    Spawn,
    /// Run the task now, inside the pool, to help drain the backlog.
    Install,
}

/// The strategy for a submission that found `previous` tasks in flight,
/// under the given threshold: queue while the backlog is within the
/// threshold, run in place once it is above.
pub open spec fn strategy_for(previous: int, threshold: int) -> Strategy {
    if previous > threshold {
        Strategy::Install
    } else {
        Strategy::Spawn
    }
}

/// `workers * factor`, held at `usize::MAX` where the product does not fit.
pub open spec fn threshold_for(workers: int, factor: int) -> int {
    if workers * factor <= usize::MAX {
        workers * factor
    } else {
        usize::MAX as int
    }
}

/// Picks how to run a detached task, given the in-flight count that its
/// submission found and the threshold.
pub fn choose_strategy(previous_count: usize, threshold: usize) -> (r: Strategy)
    ensures
        r == strategy_for(previous_count as int, threshold as int),
{
    if previous_count > threshold {
        Strategy::Install
    } else {
        Strategy::Spawn
    }
}

/// The backpressure threshold for a pool of `workers` workers, at
/// `factor` outstanding tasks per worker.
pub fn spawn_threshold(workers: usize, factor: usize) -> (r: usize)
    ensures
        r == threshold_for(workers as int, factor as int),
{
    match workers.checked_mul(factor) {
        Some(t) => t,
        None => usize::MAX,
    }
}

/// Backpressure: a task is queued only by a submission that found no more
/// than `threshold` tasks in flight; and once a submission finds the backlog
/// above the threshold, every submission that finds at least as large a
/// backlog runs in place instead of being queued.
pub proof fn lemma_backpressure(previous: int, later: int, threshold: int)
    requires
        previous <= later,
    ensures
        strategy_for(previous, threshold) == Strategy::Spawn <==> previous <= threshold,
        strategy_for(previous, threshold) == Strategy::Install
            ==> strategy_for(later, threshold) == Strategy::Install,
{
}

/// Relies on `rayon::spawn`: `func` is queued on the current pool, or on
/// rayon's global pool, and run once by one of its threads.
pub assume_specification<F>[ rayon::spawn::<F> ](func: F)
    where
        F: FnOnce() + Send + 'static,
    requires
        func.requires(()),
;

/// What a submission found and what it was told to do.
#[derive(Clone, Copy, Debug)]
pub struct Submission {
    /// The number of detached tasks in flight just before this one.
    pub previous_count: usize,
    /// The way the submitted work is to be run.
    pub strategy: Strategy,
}

/// The process-wide count of detached tasks in flight, with the threshold
/// above which submissions run in place rather than being queued.
#[derive(Debug)]
pub struct SpawnGovernor {
    in_flight: AtomicUsize,
    threshold: usize,
}

impl SpawnGovernor {
    /// The threshold that this governor compares the in-flight count with.
    pub closed spec fn threshold(&self) -> int {
        self.threshold as int
    }

    /// A governor for a pool of `workers` workers, with the default
    /// threshold of `SPAWN_THRESHOLD_FACTOR` tasks per worker.
    pub fn new(workers: usize) -> (g: SpawnGovernor)
        ensures
            g.threshold() == threshold_for(workers as int, SPAWN_THRESHOLD_FACTOR as int),
    {
        SpawnGovernor::with_threshold(spawn_threshold(workers, SPAWN_THRESHOLD_FACTOR))
    }

    /// A governor with an explicit threshold and nothing in flight.
    pub fn with_threshold(threshold: usize) -> (g: SpawnGovernor)
        ensures
            g.threshold() == threshold,
    {
        SpawnGovernor { in_flight: AtomicUsize::new(0), threshold }
    }

    /// The threshold that this governor compares the in-flight count with.
    pub fn get_threshold(&self) -> (r: usize)
        ensures
            r == self.threshold(),
    {
        self.threshold
    }

    /// Counts one more detached task in flight and decides how it runs,
    /// from the count that was there before it.
    pub fn begin_task(&self) -> (r: Submission)
        ensures
            r.strategy == strategy_for(r.previous_count as int, self.threshold()),
    {
        let previous_count = self.in_flight.fetch_add(1, Ordering::SeqCst);
        Submission { previous_count, strategy: choose_strategy(previous_count, self.threshold) }
    }

    /// Submits `job` as a detached task. It is counted in flight until it
    /// has run; while the backlog that the submission found is within the
    /// threshold it is queued for an idle worker and this returns at once,
    /// else it runs now, inside the pool, and this returns once it has run.
    /// The count is released when `job` returns: a caller whose work may
    /// panic catches the panic inside `job`, so that the count is released
    /// on failure too.
    pub fn submit<F>(governor: &Arc<SpawnGovernor>, job: F) -> (r: Submission)
        where
            F: FnOnce() + Send + 'static,
        requires
            job.requires(()),
        ensures
            r.strategy == strategy_for(r.previous_count as int, governor.threshold()),
            r.strategy == Strategy::Install ==> job.ensures((), ()),
    {
        let ghost j = job;
        let submission = governor.begin_task();
        let counter = Arc::clone(governor);
        let task = move ||
            requires
                job.requires(()),
            ensures
                j.ensures((), ()),
            {
                job();
                counter.finish_task();
            };
        match submission.strategy {
            Strategy::Spawn => rayon::spawn(task),
            Strategy::Install => {
                // Like `install` on the pool: the task runs on a pool thread,
                // this very one when the caller is already a worker.
                let run = move |_scope: &rayon::Scope| -> (u: ())
                    ensures
                        j.ensures((), u),
                    { task() };
                rayon::scope(run);
            },
        }
        submission
    }

    /// Counts one detached task as finished. Each call must match one
    /// earlier `begin_task` whose task has run; an unmatched call wraps the
    /// count, after which every submission runs in place.
    pub fn finish_task(&self) {
        self.in_flight.fetch_sub(1, Ordering::SeqCst);
    }

    /// The number of detached tasks in flight at the moment of the call.
    pub fn in_flight(&self) -> usize {
        self.in_flight.load(Ordering::SeqCst)
    }
}

} // verus!
