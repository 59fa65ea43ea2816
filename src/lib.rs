//! A copy-on-write cell for read-heavy shared state, with the byte codec
//! traits it persists through and a table that splits an integer range into
//! evenly sized buckets.
pub mod data;
pub mod lock;
pub mod model;
