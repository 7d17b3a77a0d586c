//! Cross-origin policy of the HTTP server.
//!
//! The server reads its settings from the environment; this module decides,
//! from those settings, which policy the server applies.

use vstd::prelude::*;
use vstd::utf8::encode_utf8;

use crate::text::{owned, split_on, split_seq, str_eq, string_views, trim, trimmed};
use crate::utils::path::opt_view;

verus! {

/// Origins allowed when `CORS_ORIGINS` is not set.
pub const DEFAULT_CORS_ORIGINS: &'static str = "http://localhost:3000,http://localhost:3001";

/// A byte allowed in an HTTP header value: visible ASCII, space, tab, or
/// any byte of a multi-byte character (everything but control characters
/// and DEL).
pub open spec fn header_value_byte(b: u8) -> bool {
    (b >= 32 && b != 127) || b == 9
}

/// Whether every byte of the UTF-8 encoding of `s` may stand in a header value.
pub open spec fn is_header_value(s: Seq<char>) -> bool {
    forall|i: int| 0 <= i < encode_utf8(s).len() ==> header_value_byte(#[trigger] encode_utf8(s)[i])
}

/// Trusted: `http::HeaderValue::from_str` (re-exported by axum) accepts a
/// string exactly when each of its bytes is a tab or a byte of at least 32
/// other than 127.
#[verifier::external_body]
fn parses_as_header_value(s: &str) -> (r: bool)
    ensures
        r == is_header_value(s@),
{
    axum::http::HeaderValue::from_str(s).is_ok()
}

/// The cross-origin policy the server applies.
#[derive(Debug, Clone, PartialEq, Eq)]
pub enum CorsPolicy {
    /// Localhost origins only (the fallback).
    Restrictive,
    /// Every origin, method and header (development only).
    VeryPermissive,
    /// The listed origins, with GET, POST and OPTIONS and the content-type
    /// and authorization headers.
    AllowOrigins(Vec<String>),
}

/// `RUST_ENV` names a production environment.
pub open spec fn is_production_env(env: Option<Seq<char>>) -> bool {
    env == Some("production"@) || env == Some("prod"@)
}

/// The trimmed entries of a comma-separated origin list that are valid
/// header values, in order.
pub open spec fn valid_origins(pieces: Seq<Seq<char>>) -> Seq<Seq<char>>
    decreases pieces.len(),
{
    if pieces.len() == 0 {
        Seq::empty()
    } else {
        let rest = valid_origins(pieces.drop_last());
        let t = trimmed(pieces.last());
        if is_header_value(t) {
            rest.push(t)
        } else {
            rest
        }
    }
}

/// The origins named by an optional `CORS_ORIGINS` setting.
pub open spec fn configured_origins(setting: Option<Seq<char>>) -> Seq<Seq<char>> {
    let raw = match setting {
        Some(s) => s,
        None => DEFAULT_CORS_ORIGINS@,
    };
    valid_origins(split_seq(raw, ','))
}

fn is_production(rust_env: Option<&str>) -> (r: bool)
    ensures
        r == is_production_env(opt_view(rust_env)),
{
    match rust_env {
        Some(e) => str_eq(e, "production") || str_eq(e, "prod"),
        None => false,
    }
}

fn origins_from(raw: &str) -> (r: Vec<String>)
    ensures
        string_views(r@) == valid_origins(split_seq(raw@, ',')),
{
    let pieces = split_on(raw, ',');
    let ghost pv = split_seq(raw@, ',');
    let mut out: Vec<String> = Vec::new();
    let n = pieces.len();
    let mut i: usize = 0;
    while i < n
        invariant
            n == pieces@.len(),
            n == pv.len(),
            pv == split_seq(raw@, ','),
            forall|k: int| 0 <= k < n ==> #[trigger] pieces@[k]@ == pv[k],
            i <= n,
            string_views(out@) == valid_origins(pv.subrange(0, i as int)),
        decreases n - i,
    {
        assert(pv.subrange(0, i + 1).drop_last() =~= pv.subrange(0, i as int));
        assert(pv.subrange(0, i + 1).last() == pieces@[i as int]@);
        let t = trim(pieces[i].as_str());
        if parses_as_header_value(t) {
            out.push(owned(t));
            assert(string_views(out@) =~= valid_origins(pv.subrange(0, i as int)).push(t@));
        }
        i = i + 1;
    }
    assert(pv.subrange(0, n as int) =~= pv);
    out
}

/// Choose the server's cross-origin policy from its settings: whether
/// `CORS_PERMISSIVE` is set, the value of `RUST_ENV` and the value of
/// `CORS_ORIGINS` (each `None` when absent or unreadable).
///
/// A permissive request is honoured outside production only; in production
/// the restrictive policy is used instead. Otherwise the configured origins
/// (by default the two localhost development origins) are split at commas
/// and trimmed, and those that are valid header values are allowed; when
/// none is, the restrictive policy is used.
pub fn cors_policy(permissive: bool, rust_env: Option<&str>, origins: Option<&str>) -> (r: CorsPolicy)
    ensures
        permissive && is_production_env(opt_view(rust_env)) ==> r == CorsPolicy::Restrictive,
        permissive && !is_production_env(opt_view(rust_env)) ==> r == CorsPolicy::VeryPermissive,
        !permissive ==> {
            let allowed = configured_origins(opt_view(origins));
            if allowed.len() == 0 {
                r == CorsPolicy::Restrictive
            } else {
                r matches CorsPolicy::AllowOrigins(list) && string_views(list@) == allowed
            }
        },
{
    if permissive {
        if is_production(rust_env) {
            return CorsPolicy::Restrictive;
        }
        return CorsPolicy::VeryPermissive;
    }
    let raw = match origins {
        Some(s) => s,
        None => DEFAULT_CORS_ORIGINS,
    };
    let list = origins_from(raw);
    if list.len() == 0 {
        assert(string_views(list@).len() == 0);
        CorsPolicy::Restrictive
    } else {
        CorsPolicy::AllowOrigins(list)
    }
}

} // verus!
