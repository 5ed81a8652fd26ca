//! Core of a read-only inspector for a column-family key-value store.
//!
//! The library classifies arbitrary byte values as text or binary blobs,
//! renders them in bounded, human-readable form (plain text, pretty-printed
//! JSON, or a fixed-width hex dump), and wraps a storage engine behind a
//! narrow, contract-checked read path: open a store, enumerate its
//! partitions, look keys up, and scan a partition in key order.

pub mod classify;
pub mod hex;
pub mod render;
pub mod session;
pub mod store;
pub mod text;
