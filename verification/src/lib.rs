//! Reproducible benchmark execution, artifact validation, and publication for SlateDB.
//!
//! A typical run prepares a golden database, executes one or more workloads, bundles their
//! validated artifacts, and publishes the bundle. This crate holds what is decided and computed
//! on the way; the program around it talks to the database, the store, and the machine.

pub mod bits;
pub mod bundle;
pub mod commands;
pub mod config;
pub mod count;
pub mod database_size;
pub mod digest;
pub mod durations;
pub mod faults;
pub mod histogram;
pub mod host;
pub mod instrumented_http;
pub mod instrumented_store;
pub mod manifest;
pub mod model;
pub mod named;
pub mod names;
pub mod paths;
pub mod payload;
pub mod publish;
pub mod runner;
pub mod stores;
pub mod suite;
pub mod system;
pub mod text;
pub mod validation;
pub mod workloads;
