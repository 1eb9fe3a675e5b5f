use multicore::config::{choose_worker_count, parse_worker_count, resolve_worker_count};
use multicore::governor::{choose_strategy, spawn_threshold, SpawnGovernor, Strategy};
use multicore::{log2_floor, Worker};
use std::sync::atomic::{AtomicUsize, Ordering};
use std::sync::mpsc;
use std::sync::Arc;

/// Runs `f` on a pool of `workers` threads, where `Worker::new` sees that pool.
fn on_pool<R: Send>(workers: usize, f: impl FnOnce() -> R + Send) -> R {
    let pool = rayon::ThreadPoolBuilder::new()
        .num_threads(workers)
        .build()
        .unwrap();
    pool.install(f)
}

fn worker_of(workers: usize) -> Worker {
    on_pool(workers, Worker::new)
}

#[test]
fn test_log2_floor() {
    assert_eq!(log2_floor(1), 0);
    assert_eq!(log2_floor(3), 1);
    assert_eq!(log2_floor(4), 2);
    assert_eq!(log2_floor(5), 2);
    assert_eq!(log2_floor(6), 2);
    assert_eq!(log2_floor(7), 2);
    assert_eq!(log2_floor(8), 3);
}

#[test]
fn log2_floor_at_the_ends_of_usize() {
    assert_eq!(log2_floor(2), 1);
    assert_eq!(log2_floor(1023), 9);
    assert_eq!(log2_floor(1024), 10);
    assert_eq!(log2_floor(usize::MAX), usize::BITS - 1);
    assert_eq!(log2_floor(1usize << (usize::BITS - 1)), usize::BITS - 1);
}

#[test]
fn log_num_cpus_follows_worker_count() {
    assert_eq!(worker_of(1).log_num_cpus(), 0);
    assert_eq!(worker_of(6).log_num_cpus(), 2);
    assert_eq!(worker_of(16).log_num_cpus(), 4);
}

#[test]
fn chunks_cover_elements_within_twice_the_workers() {
    for workers in 1..=9usize {
        let w = worker_of(workers);
        for n in 1..=200usize {
            let c = w.get_chunk_size(n);
            let t = w.get_num_spawned_threads(n);
            assert!(c * t >= n, "n = {}, workers = {}", n, workers);
            assert!(t <= 2 * workers, "n = {}, workers = {}", n, workers);
        }
    }
}

#[test]
fn chunk_size_edge_values() {
    let w = worker_of(4);
    assert_eq!(w.get_chunk_size(0), 1);
    assert_eq!(w.get_chunk_size(1), 1);
    assert_eq!(w.get_chunk_size(4), 1);
    assert_eq!(w.get_chunk_size(8), 2);
    assert_eq!(w.get_chunk_size(12), 3);
    assert_eq!(w.get_chunk_size(9), 3);
    assert_eq!(w.get_chunk_size(11), 3);
    assert_eq!(w.get_chunk_size(13), 4);
    assert_eq!(w.get_num_spawned_threads(0), 0);
    assert_eq!(w.get_num_spawned_threads(3), 3);
    assert_eq!(w.get_num_spawned_threads(4), 4);
    assert_eq!(w.get_num_spawned_threads(5), 3);
    assert_eq!(w.get_num_spawned_threads(13), 4);
}

#[test]
fn chunk_size_for_explicit_thread_count() {
    assert_eq!(Worker::chunk_size_for_num_spawned_threads(10, 10), 1);
    assert_eq!(Worker::chunk_size_for_num_spawned_threads(10, 3), 4);
    assert_eq!(Worker::chunk_size_for_num_spawned_threads(12, 3), 4);
    assert_eq!(Worker::chunk_size_for_num_spawned_threads(7, 1), 7);
    assert_eq!(Worker::chunk_size_for_num_spawned_threads(usize::MAX, 2), usize::MAX / 2 + 1);
}

#[test]
fn new_worker_matches_pool() {
    let w = Worker::new();
    assert!(w.get_num_cpus() >= 1);
    assert_eq!(w.get_num_cpus(), rayon::current_num_threads());
    let copy = w.clone();
    assert_eq!(copy.get_num_cpus(), w.get_num_cpus());
}

#[test]
fn strategy_switches_above_threshold() {
    assert_eq!(choose_strategy(0, 8), Strategy::Spawn);
    assert_eq!(choose_strategy(8, 8), Strategy::Spawn);
    assert_eq!(choose_strategy(9, 8), Strategy::Install);
    assert_eq!(choose_strategy(usize::MAX, 8), Strategy::Install);
}

#[test]
fn threshold_is_workers_times_factor() {
    assert_eq!(spawn_threshold(4, 4), 16);
    assert_eq!(spawn_threshold(1, 4), 4);
    assert_eq!(spawn_threshold(usize::MAX, 4), usize::MAX);
    assert_eq!(SpawnGovernor::new(3).get_threshold(), 12);
    assert_eq!(SpawnGovernor::with_threshold(5).get_threshold(), 5);
}

#[test]
fn governor_counts_and_redirects() {
    let g = SpawnGovernor::with_threshold(2);
    let first = g.begin_task();
    assert_eq!(first.previous_count, 0);
    assert_eq!(first.strategy, Strategy::Spawn);
    assert_eq!(g.begin_task().strategy, Strategy::Spawn);
    assert_eq!(g.begin_task().strategy, Strategy::Spawn);
    let fourth = g.begin_task();
    assert_eq!(fourth.previous_count, 3);
    assert_eq!(fourth.strategy, Strategy::Install);
    assert_eq!(g.begin_task().strategy, Strategy::Install);
    assert_eq!(g.in_flight(), 5);
    g.finish_task();
    g.finish_task();
    g.finish_task();
    assert_eq!(g.in_flight(), 2);
    assert_eq!(g.begin_task().strategy, Strategy::Spawn);
}

#[test]
fn backpressure_under_load_delivers_every_result_once() {
    let governor = Arc::new(SpawnGovernor::new(2));
    let threshold = governor.get_threshold();
    assert_eq!(threshold, 8);
    let total: usize = 2000;
    let (tx, rx) = mpsc::channel();
    let mut installed = 0usize;
    for i in 0..total {
        let tx = tx.clone();
        let submission = SpawnGovernor::submit(&governor, move || {
            tx.send(i * 3).unwrap();
        });
        match submission.strategy {
            Strategy::Spawn => assert!(submission.previous_count <= threshold),
            Strategy::Install => {
                assert!(submission.previous_count > threshold);
                installed += 1;
            }
        }
    }
    drop(tx);
    let mut seen = vec![false; total];
    let mut count = 0;
    for v in rx.iter() {
        assert_eq!(v % 3, 0);
        let i = v / 3;
        assert!(!seen[i]);
        seen[i] = true;
        count += 1;
    }
    assert_eq!(count, total);
    assert!(seen.iter().all(|s| *s));
    assert!(installed <= total);
    while governor.in_flight() != 0 {
        std::hint::spin_loop();
    }
}

#[test]
fn submit_runs_in_place_above_threshold() {
    let governor = Arc::new(SpawnGovernor::with_threshold(0));
    let held = governor.begin_task();
    assert_eq!(held.strategy, Strategy::Spawn);
    let ran = Arc::new(AtomicUsize::new(0));
    let r = Arc::clone(&ran);
    let submission = SpawnGovernor::submit(&governor, move || {
        r.fetch_add(1, Ordering::SeqCst);
    });
    assert_eq!(submission.previous_count, 1);
    assert_eq!(submission.strategy, Strategy::Install);
    assert_eq!(ran.load(Ordering::SeqCst), 1);
    assert_eq!(governor.in_flight(), 1);
    governor.finish_task();
    assert_eq!(governor.in_flight(), 0);
}

#[test]
fn parse_worker_count_reads_positive_decimals() {
    assert_eq!(parse_worker_count("8"), Some(8));
    assert_eq!(parse_worker_count("+3"), Some(3));
    assert_eq!(parse_worker_count("0012"), Some(12));
    assert_eq!(parse_worker_count("0"), None);
    assert_eq!(parse_worker_count(""), None);
    assert_eq!(parse_worker_count("+"), None);
    assert_eq!(parse_worker_count("-2"), None);
    assert_eq!(parse_worker_count(" 4"), None);
    assert_eq!(parse_worker_count("four"), None);
    assert_eq!(parse_worker_count("99999999999999999999999999"), None);
}

#[test]
fn resolve_worker_count_prefers_a_valid_override() {
    assert_eq!(resolve_worker_count(Some("6")), 6);
    assert_eq!(resolve_worker_count(Some("1")), 1);
    let detected = resolve_worker_count(None);
    assert!(detected >= 1);
    assert_eq!(resolve_worker_count(Some("0")), detected);
    assert_eq!(resolve_worker_count(Some("many")), detected);
    assert_eq!(choose_worker_count(Some(5), 2), 5);
    assert_eq!(choose_worker_count(None, 2), 2);
}

#[test]
fn scope_waits_for_nested_children() {
    on_pool(4, || {
        let w = Worker::new();
        assert_eq!(w.get_num_cpus(), 4);
        let counter = AtomicUsize::new(0);
        let seen_chunk = w.scope(40, |s, chunk| {
            for _ in 0..4 {
                let counter = &counter;
                s.spawn(move |s| {
                    counter.fetch_add(1, Ordering::SeqCst);
                    for _ in 0..3 {
                        s.spawn(move |_| {
                            counter.fetch_add(1, Ordering::SeqCst);
                        });
                    }
                });
            }
            chunk
        });
        assert_eq!(seen_chunk, 10);
        assert_eq!(counter.load(Ordering::SeqCst), 16);
    });
}

#[test]
fn in_place_scope_waits_for_children() {
    on_pool(3, || {
        let w = Worker::new();
        assert_eq!(w.get_num_cpus(), 3);
        let counter = AtomicUsize::new(0);
        let seen_chunk = w.in_place_scope(2, |s, chunk| {
            for _ in 0..5 {
                let counter = &counter;
                s.spawn(move |_| {
                    counter.fetch_add(1, Ordering::SeqCst);
                });
            }
            chunk
        });
        assert_eq!(seen_chunk, 1);
        assert_eq!(counter.load(Ordering::SeqCst), 5);
    });
}

#[test]
fn partitioned_sum_of_a_thousand_elements() {
    on_pool(4, || {
        let w = Worker::new();
        assert_eq!(w.get_num_cpus(), 4);
        let data: Vec<u64> = (0..1000u64).map(|i| i * i + 7).collect();
        let chunk = w.get_chunk_size(data.len());
        assert_eq!(chunk, 250);
        assert_eq!(w.get_num_spawned_threads(data.len()), 4);
        let total = AtomicUsize::new(0);
        w.scope(data.len(), |s, chunk| {
            for part in data.chunks(chunk) {
                let total = &total;
                s.spawn(move |_| {
                    let sum: u64 = part.iter().sum();
                    total.fetch_add(sum as usize, Ordering::SeqCst);
                });
            }
        });
        let expected: u64 = data.iter().sum();
        assert_eq!(total.load(Ordering::SeqCst) as u64, expected);
    });
}
