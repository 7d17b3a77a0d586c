//! Parameter types of the MCP tools.

use vstd::prelude::*;

verus! {

/// Parameters for the `get_symbols` tool.
#[derive(Debug, Clone)]
pub struct SymbolsParams {
    /// Exchange ID (e.g., "bybit")
    pub exchange: String,
    /// Symbol category: linear, inverse, or spot
    pub category: Option<String>,
    /// Filter symbols by name
    pub search: Option<String>,
}

/// Parameters for the `login` tool.
#[derive(Debug, Clone)]
pub struct LoginParams {
    /// Username (e.g., "admin")
    pub username: String,
    /// Password
    pub password: String,
}

} // verus!
