//! Error type shared by the exchange, storage and validation layers.

use vstd::prelude::*;

use crate::text::{concat2, i64_to_decimal, owned, signed_decimal};

verus! {

/// Errors raised by the core of CryptoScope.
///
/// Failures that originate in I/O layers (HTTP transport, JSON decoding,
/// database access) are carried as their rendered message.
#[derive(Debug, Clone, PartialEq, Eq)]
pub enum CryptoScopeError {
    /// The requested exchange is not supported.
    UnknownExchange(String),
    /// An HTTP request failed.
    HttpError(String),
    /// A response body could not be decoded.
    ParseError(String),
    /// The database reported an error.
    DbError(String),
    /// An internal storage or configuration problem.
    DbInternal(String),
    /// The exchange answered with a non-zero return code.
    ApiError { code: i32, message: String },
}

/// The text of an error as it is reported.
pub open spec fn error_text(err: CryptoScopeError) -> Seq<char> {
    match err {
        CryptoScopeError::UnknownExchange(name) => "Unknown exchange: "@ + name@,
        CryptoScopeError::HttpError(e) => "HTTP request failed: "@ + e@,
        CryptoScopeError::ParseError(e) => "JSON parsing failed: "@ + e@,
        CryptoScopeError::DbError(e) => "Database error: "@ + e@,
        CryptoScopeError::DbInternal(msg) => msg@,
        CryptoScopeError::ApiError { code, message } =>
            "API error code "@ + signed_decimal(code as int) + ": "@ + message@,
    }
}

impl CryptoScopeError {
    /// Renders the error as a message.
    pub fn message(&self) -> (r: String)
        ensures
            r@ == error_text(*self),
    {
        match self {
            CryptoScopeError::UnknownExchange(name) => concat2("Unknown exchange: ", name.as_str()),
            CryptoScopeError::HttpError(e) => concat2("HTTP request failed: ", e.as_str()),
            CryptoScopeError::ParseError(e) => concat2("JSON parsing failed: ", e.as_str()),
            CryptoScopeError::DbError(e) => concat2("Database error: ", e.as_str()),
            CryptoScopeError::DbInternal(msg) => msg.clone(),
            CryptoScopeError::ApiError { code, message } => {
                let mut m = owned("API error code ");
                let c = i64_to_decimal(*code as i64);
                m.append(c.as_str());
                m.append(": ");
                m.append(message.as_str());
                m
            },
        }
    }
}

/// Result type used throughout the crate.
pub type Result<T> = core::result::Result<T, CryptoScopeError>;

} // verus!
