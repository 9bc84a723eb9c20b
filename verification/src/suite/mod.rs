//! Suites of profiles, whose workloads run one after another.

pub mod bulk;
pub mod checks;
pub mod config;
pub mod durability;
pub mod encoding;
pub mod golden;
pub mod isolated;
pub mod open_loop;
pub mod operations;
pub mod probe;
pub mod records;
pub mod requests;
pub mod results;
pub mod run;
pub mod samples;
pub mod secrets;
pub mod sequential;
pub mod session;
pub mod stats;
