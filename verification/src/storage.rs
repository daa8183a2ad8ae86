//! Storage layer: record types, the write-batching policy, builder
//! settings, query planning and statistics, and collector records.
pub mod batch;
pub mod collector_store;
pub mod builder;
pub mod error;
pub mod query;
pub mod types;
