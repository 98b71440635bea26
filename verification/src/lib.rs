//! A verified state adapter for a Starknet-style execution engine: point
//! reads and writes of contract storage, nonces, class hashes and class
//! payloads against an injected key-value backing store, with a change
//! tracker for fee accounting and a checksum helper for asset files.

pub mod adapter;
pub mod bytes;
pub mod checksum;
pub mod class;
pub mod configs;
pub mod felt;
pub mod laws;
pub mod starknet_adapter;
pub mod store;
