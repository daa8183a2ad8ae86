//! Oculus: value monitoring library.
//!
//! The verified core of the monitoring system: durations and schedules,
//! configuration validation, probe configurations and success rules,
//! metric and event records, the write-batching policy of the storage
//! actor, and the query and statistics logic of the readers.
pub mod clock;
pub mod collector;
pub mod config;
pub mod ipaddr;
pub mod server;
pub mod storage;
pub mod tags;
pub mod text;
pub mod time;
