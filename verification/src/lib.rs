//! Concurrency and resource-access core for a plant-telemetry service.
//!
//! The crate provides the building blocks that let many concurrent
//! request-handling tasks safely read and mutate shared plant state:
//! a bounded [`pool::ResourcePool`] of exclusively-held handles, a
//! [`gateway::BlockingGateway`] that carries blocking work off the
//! cooperative scheduler, a keyed record store ([`store::PlantStore`])
//! and an in-memory nested aggregate ([`aggregate::SharedAggregateStore`])
//! guarded by a single lock held by its embedding application.

pub mod access;
pub mod aggregate;
pub mod gateway;
pub mod models;
pub mod pool;
pub mod store;
