//! The REST API's vocabulary: request validation, response payloads, error
//! mapping, authentication decisions and screener request handling.

pub mod auth;
pub mod cors;
pub mod error;
pub mod screener;
pub mod types;
