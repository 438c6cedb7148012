//! A user aggregate (a user and the departments it owns): reconstruction of
//! aggregates from outer-join rows, an in-memory store with atomic,
//! uniqueness-checked creation, the decisions of a create against an outside
//! store, and small composable string and pipeline stages.

pub mod cli;
pub mod domain;
pub mod dtos;
pub mod handler;
pub mod pipeline;
pub mod rows;
pub mod session;
pub mod stages;
pub mod store;
