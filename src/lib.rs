//! A client library for NRQL analytics queries: credential resolution,
//! query construction and rendering of the schema-less JSON results.

pub mod json;
pub mod render;
pub mod connection;
pub mod query;
