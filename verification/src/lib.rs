//! An in-process task processing engine: callers submit named, prioritized
//! work items, the engine assigns each a fresh identity, queues it, and a
//! dispatch loop advances every task through the lifecycle
//! `Pending -> Processing -> Completed | Failed` while callers poll for the
//! current status by identity.

pub mod api;
pub mod auth;
pub mod engine;
pub mod queue;
pub mod store;
pub mod task;
