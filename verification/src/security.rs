//! Security configuration for the MCP server: allowlist patterns for tool
//! parameters and containment of resolved paths.

use vstd::prelude::*;

use crate::pattern::{
    category_pattern, contract_type_pattern, exchange_name_pattern, ident_pattern, is_ident,
    regex_compiles, regex_is_match, regex_matches,
};
use crate::text::{concat2, owned, str_eq};
use crate::utils::path::{path_starts_with, starts_with_path};

verus! {

/// Security configuration for the MCP server.
pub struct SecurityConfig {
    /// Pattern for exchange names
    exchange_pattern: String,
    /// Pattern for categories
    category_pattern: String,
    /// Pattern for search terms
    search_pattern: String,
    /// Pattern for contract types
    contract_type_pattern: String,
}

/// The allowlist pattern the MCP configuration uses for a parameter type,
/// or `None` for an unknown type.
pub open spec fn mcp_pattern_for(param_type: Seq<char>) -> Option<Seq<char>> {
    if param_type == "exchange"@ {
        Some(exchange_name_pattern())
    } else if param_type == "category"@ {
        Some(category_pattern())
    } else if param_type == "search"@ {
        Some(ident_pattern())
    } else if param_type == "contract_type"@ {
        Some(contract_type_pattern())
    } else {
        None
    }
}

impl SecurityConfig {
    /// The pattern this configuration applies to a parameter type.
    pub closed spec fn pattern_for(self, param_type: Seq<char>) -> Option<Seq<char>> {
        if param_type == "exchange"@ {
            Some(self.exchange_pattern@)
        } else if param_type == "category"@ {
            Some(self.category_pattern@)
        } else if param_type == "search"@ {
            Some(self.search_pattern@)
        } else if param_type == "contract_type"@ {
            Some(self.contract_type_pattern@)
        } else {
            None
        }
    }
}

/// What the MCP configuration accepts for each parameter type: `bybit` as
/// an exchange; `linear`, `inverse` or `spot` as a category; a non-empty
/// string of ASCII letters, digits, `_` and `-` as a search term; `linear` or
/// `inverse` as a contract type; nothing for an unknown type.
pub open spec fn mcp_accepts(param: Seq<char>, param_type: Seq<char>) -> bool {
    if param_type == "exchange"@ {
        param == "bybit"@
    } else if param_type == "category"@ {
        param == "linear"@ || param == "inverse"@ || param == "spot"@
    } else if param_type == "search"@ {
        is_ident(param)
    } else if param_type == "contract_type"@ {
        param == "linear"@ || param == "inverse"@
    } else {
        false
    }
}

impl SecurityConfig {
    /// The configuration holds the MCP server's patterns.
    pub open spec fn is_mcp_config(self) -> bool {
        forall|t: Seq<char>| #[trigger] self.pattern_for(t) == mcp_pattern_for(t)
    }

    /// Whether the configuration accepts `param` as a value of `param_type`.
    pub open spec fn accepts(self, param: Seq<char>, param_type: Seq<char>) -> bool {
        match self.pattern_for(param_type) {
            Some(p) => regex_compiles(p) && regex_matches(p, param),
            None => false,
        }
    }

    /// The configuration used by the MCP server.
    pub fn default_for_mcp() -> (r: Self)
        ensures
            r.is_mcp_config(),
    {
        SecurityConfig {
            // Only allow known exchange names (e.g., "bybit")
            exchange_pattern: owned("^(bybit)$"),
            // Only allow "linear", "inverse", "spot"
            category_pattern: owned("^(linear|inverse|spot)$"),
            // Allow alphanumeric characters, `_` and `-`
            search_pattern: owned("^[a-zA-Z0-9_-]+$"),
            // Only allow "linear", "inverse"
            contract_type_pattern: owned("^(linear|inverse)$"),
        }
    }

    /// Validate a parameter as a search term.
    pub fn is_param_safe(&self, param: &str) -> (r: bool)
        ensures
            r == self.accepts(param@, "search"@),
            self.is_mcp_config() ==> r == mcp_accepts(param@, "search"@),
    {
        // Default to search pattern for backward compatibility
        self.is_param_safe_with_type(param, "search")
    }

    /// Validate a parameter with an explicit type: "exchange", "category",
    /// "search" or "contract_type". Unknown types are unsafe.
    pub fn is_param_safe_with_type(&self, param: &str, param_type: &str) -> (r: bool)
        ensures
            r == self.accepts(param@, param_type@),
            self.is_mcp_config() ==> r == mcp_accepts(param@, param_type@),
    {
        let pattern: &str = if str_eq(param_type, "exchange") {
            self.exchange_pattern.as_str()
        } else if str_eq(param_type, "category") {
            self.category_pattern.as_str()
        } else if str_eq(param_type, "search") {
            self.search_pattern.as_str()
        } else if str_eq(param_type, "contract_type") {
            self.contract_type_pattern.as_str()
        } else {
            return false;
        };
        match regex_is_match(pattern, param) {
            Some(b) => b,
            None => false,
        }
    }

    /// Decide the result of resolving a path inside a base directory, given
    /// the canonical forms of both (or the reason each could not be found).
    ///
    /// The target is accepted only when the canonical base is a
    /// component-wise prefix of it.
    pub fn safe_resolve(canonical_base: Result<String, String>, canonical_target: Result<String, String>) -> (r: Result<String, String>)
        ensures
            canonical_base matches Err(e) ==> (r matches Err(m) && m@ == "Failed to canonicalize base directory: "@ + e@),
            canonical_base is Ok ==> (canonical_target matches Err(e)
                ==> (r matches Err(m) && m@ == "Failed to canonicalize target path: "@ + e@)),
            canonical_base matches Ok(b) ==> (canonical_target matches Ok(t) ==> (
                path_starts_with(t@, b@) ==> r == Ok::<String, String>(t))),
            canonical_base matches Ok(b) ==> (canonical_target matches Ok(t) ==> (
                !path_starts_with(t@, b@) ==> (r matches Err(m)
                    && m@ == "Path traversal detected: resolved path is outside base directory"@))),
    {
        let base = match canonical_base {
            Ok(b) => b,
            Err(e) => return Err(concat2("Failed to canonicalize base directory: ", e.as_str())),
        };
        let target = match canonical_target {
            Ok(t) => t,
            Err(e) => return Err(concat2("Failed to canonicalize target path: ", e.as_str())),
        };
        if starts_with_path(target.as_str(), base.as_str()) {
            Ok(target)
        } else {
            Err(owned("Path traversal detected: resolved path is outside base directory"))
        }
    }
}

} // verus!
