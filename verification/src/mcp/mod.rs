//! The MCP server's decisions: parameter validation against the security
//! allowlists, and the API requests each tool makes.

pub mod query;
pub mod types;
pub mod validation;
