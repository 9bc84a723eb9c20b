//! Preparation of golden datasets and execution of workloads.

pub mod cache;
pub mod checkpoint;
pub mod matching;
pub mod preparation;
pub mod workload;
