//! Request orchestration core for a fleet of interchangeable inference
//! backends: weighted, load-aware routing with admission control, a response
//! cache keyed by request id, time/size-bounded request batching, and
//! aggregate metrics.

pub mod batcher;
pub mod cache;
pub mod config;
pub mod load_balancer;
pub mod manager;
pub mod metrics;
pub mod models;
pub mod orchestrator;
pub mod registry;
