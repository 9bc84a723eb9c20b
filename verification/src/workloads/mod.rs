//! Closed-loop and open-loop workload logic.

pub mod chance;
pub mod closed;
pub mod dataset;
pub mod durability;
pub mod execution;
pub mod stats;
pub mod util;
