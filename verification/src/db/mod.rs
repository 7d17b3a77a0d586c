//! Storage layout of the open-price cache.

pub mod schema;
