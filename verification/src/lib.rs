//! Average salary per gender category, computed over secret-shared inputs.
//!
//! The crate has four parts. `secret` is the abstraction of secret-shared
//! values with its closed set of operations. `zk_compute` is the aggregation
//! kernel, which sums salaries and counts contributors per category without
//! ever branching on a secret. `records` holds the submitted inputs and the
//! uniqueness of their contributors. `contract` is the state machine that
//! collects inputs, gates the computation, and derives the published averages
//! from the opened aggregate.

pub mod secret;
pub mod zk_compute;
pub mod records;
pub mod contract;
