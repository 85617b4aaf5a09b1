//! A fleet health-monitoring engine: services are probed over HTTP or TCP
//! with a bounded retry policy, probe outcomes are recorded, and the record
//! is rolled up into daily uptime and latency metrics.

pub mod clock;
pub mod sys;
pub mod healthcheck;
pub mod service;
pub mod utils;
pub mod checker;
pub mod metrics;
pub mod store;
pub mod scheduler;
pub mod metrics_updater;
pub mod config;
pub mod api;
