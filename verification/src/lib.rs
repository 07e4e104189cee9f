//! A contention micro-benchmark for read-write locks: deterministic workload
//! generation, the worker loops that drive a pool of locks, the consistency
//! oracle of one run, and the aggregation of repeated rounds.

pub mod aggregate;
pub mod pool;
pub mod random;
pub mod runner;
pub mod rwlocks;
pub mod workload;
