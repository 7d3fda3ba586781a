//! Core of a load-testing engine: a deterministic virtual-user scheduler and
//! scenario-execution model that drives simulated clients against a target
//! service, paces request rates, and aggregates per-request metrics.
//!
//! The HTTP client itself, report rendering and process bootstrapping are
//! collaborators outside this crate: they hand plain values in and take plain
//! values back.

pub mod controller;
pub mod engine;
pub mod metrics;
pub mod rng;
pub mod runner;
pub mod scenario;
pub mod schedule;
pub mod selection;
pub mod user;
