//! JSON document of fetched symbols with their full statistics and an
//! RFC 3339 timestamp.
//!
//! The document is built here; turning it into JSON text is the caller's
//! part.

use vstd::prelude::*;

use crate::models::statistics::Statistics;
use crate::models::symbol::Symbol;
use crate::text::{owned, str_views, string_views};

pub use super::json_output::JsonSymbol;
use super::json_output::{json_symbols, owned_names, renders_all, time_since_epoch};

verus! {

/// JSON output structure for machine-readable output.
///
/// Contains all the data needed for a complete JSON report including
/// exchange info, categories, timestamp, statistics, and full symbol list.
pub struct JsonOutput {
    /// Name of the exchange (e.g., "bybit")
    pub exchange: String,
    /// List of categories included in the output
    pub categories: Vec<String>,
    /// ISO 8601 timestamp of when the report was generated
    pub timestamp: String,
    /// Aggregated statistics about the symbols
    pub statistics: Statistics,
    /// List of all symbols with their details
    pub symbols: Vec<JsonSymbol>,
}

/// Name for the RFC 3339 text chrono gives for the UTC instant `secs`
/// seconds and `nanos` nanoseconds after the Unix epoch.
pub uninterp spec fn rfc3339_text(secs: int, nanos: nat) -> Seq<char>;

/// Trusted: `chrono::DateTime::<Utc>::from_timestamp(secs, nanos)` followed
/// by `to_rfc3339()`. `from_timestamp` gives `None` for an instant out of
/// chrono's range or an invalid nanosecond count; any instant from the epoch
/// up to 2^40 seconds later with nanoseconds below one second is in range.
/// The text is a function of the instant alone (the offset is UTC).
#[verifier::external_body]
fn rfc3339_of(secs: i64, nanos: u32) -> (r: Option<String>)
    ensures
        r matches Some(t) ==> t@ == rfc3339_text(secs as int, nanos as nat),
        0 <= secs < 1_099_511_627_776 && nanos < 1_000_000_000 ==> r is Some,
{
    chrono::DateTime::<chrono::Utc>::from_timestamp(secs, nanos).map(|d| d.to_rfc3339())
}

/// The timestamp used when the clock gives no instant chrono can render.
pub open spec fn epoch_rfc3339() -> Seq<char> {
    "1970-01-01T00:00:00+00:00"@
}

/// Whether `t` is the RFC 3339 text of some instant, or the epoch fallback.
pub open spec fn is_report_time(t: Seq<char>) -> bool {
    (exists|secs: int, nanos: nat| t == #[trigger] rfc3339_text(secs, nanos)) || t == epoch_rfc3339()
}

/// The RFC 3339 timestamp of the instant `secs` seconds and `nanos`
/// nanoseconds after the Unix epoch; the epoch itself where the instant
/// lies beyond what chrono renders.
pub fn rfc3339_timestamp(secs: u64, nanos: u32) -> (r: String)
    ensures
        secs < 1_099_511_627_776 && nanos < 1_000_000_000 ==> r@ == rfc3339_text(secs as int, nanos as nat),
        is_report_time(r@),
{
    proof {
        reveal_strlit("1970-01-01T00:00:00+00:00");
    }
    if secs <= 9_223_372_036_854_775_807u64 {
        match rfc3339_of(secs as i64, nanos) {
            Some(t) => {
                assert(t@ == rfc3339_text(secs as int, nanos as nat));
                t
            },
            None => owned("1970-01-01T00:00:00+00:00"),
        }
    } else {
        owned("1970-01-01T00:00:00+00:00")
    }
}

impl JsonOutput {
    /// The document for the given data with the given timestamp.
    pub fn with_timestamp(
        exchange: &str,
        categories: &[&str],
        symbols: &[Symbol],
        stats: &Statistics,
        timestamp: String,
    ) -> (r: Self)
        ensures
            r.exchange@ == exchange@,
            string_views(r.categories@) == str_views(categories@),
            r.timestamp@ == timestamp@,
            r.statistics.total_count == stats.total_count,
            r.statistics.by_category@ == stats.by_category@,
            r.statistics.by_contract_type@ == stats.by_contract_type@,
            renders_all(r.symbols@, symbols@),
    {
        JsonOutput {
            exchange: owned(exchange),
            categories: owned_names(categories),
            timestamp,
            statistics: stats.duplicate(),
            symbols: json_symbols(symbols),
        }
    }

    /// Create JSON output from fetched data
    ///
    /// Converts symbols and statistics into JSON-serializable format
    /// with exchange info and the current time as RFC 3339 timestamp
    /// (the epoch when the clock is set before it).
    pub fn new(exchange: &str, categories: &[&str], symbols: &[Symbol], stats: &Statistics) -> (r: Self)
        ensures
            r.exchange@ == exchange@,
            string_views(r.categories@) == str_views(categories@),
            r.statistics.total_count == stats.total_count,
            r.statistics.by_category@ == stats.by_category@,
            r.statistics.by_contract_type@ == stats.by_contract_type@,
            renders_all(r.symbols@, symbols@),
            is_report_time(r.timestamp@),
    {
        let timestamp = match time_since_epoch() {
            Some((secs, nanos)) => rfc3339_timestamp(secs, nanos),
            None => {
                proof {
                    reveal_strlit("1970-01-01T00:00:00+00:00");
                }
                owned("1970-01-01T00:00:00+00:00")
            },
        };
        Self::with_timestamp(exchange, categories, symbols, stats, timestamp)
    }
}

} // verus!
