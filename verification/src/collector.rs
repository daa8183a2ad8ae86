//! Collectors: probe configurations, schedules and the decisions that
//! turn a probe's observation into a success or a failure.
pub mod http;
pub mod network;
pub mod ping;
pub mod probe;
pub mod registry;
pub mod tcp;
pub mod traits;
