//! An in-memory order-tracking core: a validator for submitted order
//! documents, and a concurrency-safe store keeping an append-only version
//! history per order identifier, read back by key or as a bulk listing.

pub mod order;
pub mod shared;
pub mod store;
pub mod validate;
