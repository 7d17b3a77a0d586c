//! MCP parameter validation.

use vstd::prelude::*;

use crate::security::SecurityConfig;
use crate::text::{owned, signed_decimal};

verus! {

/// The message rejecting a parameter that does not match its allowlist.
pub open spec fn invalid_param_text(param: Seq<char>, param_type: Seq<char>) -> Seq<char> {
    "Invalid parameter '"@ + param + "': does not match allowed pattern for type '"@ + param_type + "'"@
}

/// Validate a parameter against the security configuration.
pub fn validate_param(param: &str, config: &SecurityConfig, param_type: &str) -> (r: Result<(), String>)
    ensures
        config.accepts(param@, param_type@) ==> r is Ok,
        !config.accepts(param@, param_type@) ==> (r matches Err(m) && m@ == invalid_param_text(param@, param_type@)),
{
    if !config.is_param_safe_with_type(param, param_type) {
        let mut m = owned("Invalid parameter '");
        m.append(param);
        m.append("': does not match allowed pattern for type '");
        m.append(param_type);
        m.append("'");
        return Err(m);
    }
    Ok(())
}

/// Validate the optional `top` parameter of the screener: between 1 and 1000.
pub fn validate_top(top: Option<i64>) -> (r: Result<(), String>)
    ensures
        (top matches Some(t) && (t < 1 || t > 1000)) ==> (r matches Err(m)
            && m@ == "Parameter 'top' must be between 1 and 1000"@),
        !(top matches Some(t) && (t < 1 || t > 1000)) ==> r is Ok,
{
    if let Some(t) = top {
        if t < 1 || t > 1000 {
            return Err(owned("Parameter 'top' must be between 1 and 1000"));
        }
    }
    Ok(())
}

} // verus!
