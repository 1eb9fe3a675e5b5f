//! Partitioning rules, spawn backpressure and pool configuration for a
//! fixed-size worker pool that runs divide-and-conquer numeric kernels.

pub mod config;
pub mod governor;
pub mod log2;
pub mod partition;
pub mod scope;
pub mod worker;

pub use log2::log2_floor;
pub use worker::Worker;
pub use rayon::{current_num_threads, scope, Scope};
