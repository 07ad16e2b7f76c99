//! Verified core of a local service supervisor: restart policies, failure
//! windows, port allocation, proxy bookkeeping, log buffering, configuration
//! and project-name validation.

pub mod simple_rng;
pub mod restart_policy;
pub mod text;
pub mod projects;
pub mod error;
pub mod health;
pub mod proxy_api;
pub mod logging;
pub mod port;
pub mod config;
pub mod supervisor;
pub mod persistence;
pub mod process;
pub mod utilities;
pub mod desktop;
pub mod protocol;
pub mod cli;
pub mod storage;
