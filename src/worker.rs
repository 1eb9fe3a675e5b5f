use vstd::prelude::*;
use crate::log2::{is_floor_log2, log2_floor};
use crate::partition::{ceil_div, chunk_size, lemma_partition_covers, task_count};
use crate::config::pool_thread_count;
use vstd::arithmetic::div_mod::lemma_fundamental_div_mod;

verus! {

/// A handle on the worker pool: it knows how many workers the pool has and
/// decides how a run of elements is split over them.
#[derive(Clone, Copy, Debug)]
pub struct Worker {
    num_cpus: usize,
}

impl Worker {
    #[verifier::type_invariant]
    spec fn inv(self) -> bool {
        self.num_cpus >= 1
    }

    /// The number of workers that this handle partitions for.
    pub closed spec fn workers(self) -> int {
        self.num_cpus as int
    }

    /// A handle for the pool that the current thread runs on, or for the
    /// process-wide pool when it runs on none.
    pub fn new() -> (w: Worker)
        ensures
            w.workers() >= 1,
    {
        Worker { num_cpus: pool_thread_count() }
    }

    /// The number of workers, never zero.
    pub fn get_num_cpus(&self) -> (r: usize)
        ensures
            r == self.workers(),
            r >= 1,
    {
        proof {
            use_type_invariant(self);
        }
        self.num_cpus
    }

    /// The floor of the base-2 logarithm of the number of workers.
    pub fn log_num_cpus(&self) -> (r: u32)
        ensures
            is_floor_log2(self.workers(), r as nat),
    {
        proof {
            use_type_invariant(self);
        }
        log2_floor(self.num_cpus)
    }

    /// The number of elements per task when `elements` elements are split
    /// over this pool's workers.
    pub fn get_chunk_size(&self, elements: usize) -> (r: usize)
        ensures
            r == chunk_size(elements as int, self.workers()),
            r >= 1,
    {
        proof {
            use_type_invariant(self);
        }
        if elements <= self.num_cpus {
            1
        } else {
            Self::chunk_size_for_num_spawned_threads(elements, self.num_cpus)
        }
    }

    /// The number of elements per task when `elements` elements are split
    /// evenly over `num_threads` tasks: the quotient, rounded up.
    pub fn chunk_size_for_num_spawned_threads(elements: usize, num_threads: usize) -> (r: usize)
        requires
            num_threads >= 1,
            elements >= num_threads,
        ensures
            r == ceil_div(elements as int, num_threads as int),
            r >= 1,
    {
        proof {
            lemma_fundamental_div_mod(elements as int, num_threads as int);
            assert(elements / num_threads >= 1) by (nonlinear_arith)
                requires
                    elements == num_threads * (elements / num_threads) + elements % num_threads,
                    elements >= num_threads,
                    num_threads >= 1,
                    0 <= elements % num_threads < num_threads,
            ;
            assert(elements % num_threads != 0 ==> elements / num_threads < elements)
                by (nonlinear_arith)
                requires
                    elements == num_threads * (elements / num_threads) + elements % num_threads,
                    num_threads >= 1,
                    elements / num_threads >= 0,
            ;
        }
        if elements % num_threads == 0 {
            elements / num_threads
        } else {
            elements / num_threads + 1
        }
    }

    /// The number of tasks that `elements` elements are split into, one
    /// per chunk of `get_chunk_size(elements)`.
    pub fn get_num_spawned_threads(&self, elements: usize) -> (r: usize)
        ensures
            r == task_count(elements as int, self.workers()),
            elements >= 1 ==> r <= 2 * self.workers(),
    {
        proof {
            use_type_invariant(self);
        }
        if elements <= self.num_cpus {
            elements
        } else {
            let chunk = self.get_chunk_size(elements);
            let mut spawned = elements / chunk;
            proof {
                lemma_fundamental_div_mod(elements as int, chunk as int);
                let q = elements / chunk;
                let m = elements % chunk;
                assert(q * chunk == elements - m) by (nonlinear_arith)
                    requires elements == chunk * q + m;
                lemma_partition_covers(elements as int, self.workers());
            }
            if spawned * chunk < elements {
                assert(spawned < elements) by (nonlinear_arith)
                    requires spawned * chunk < elements, chunk >= 1, spawned >= 0;
                spawned = spawned + 1;
            }
            spawned
        }
    }
}

} // verus!
