//! Batch build orchestration: group applications by build-system kind,
//! dispatch each group to its backend, and aggregate per-application
//! outcomes into a deterministically ordered report.

pub mod backends;
pub mod order;
