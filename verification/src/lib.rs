//! CryptoScope: screening and cataloguing of crypto derivatives symbols.
//!
//! The crate holds the verified core of the service: symbol metadata and
//! aggregation, request validation and error mapping, authentication and
//! cross-origin decisions, URL and query building, path normalization,
//! schema migration plans, the decisions taken around caching and retries,
//! and the layout of the text report and the screener table.

pub mod api;
pub mod cli;
pub mod db;
pub mod error;
pub mod mcp;
pub mod exchange;
pub mod models;
pub mod output;
pub mod pattern;
pub mod screener;
pub mod security;
pub mod test_utils;
pub mod text;
pub mod utils;
