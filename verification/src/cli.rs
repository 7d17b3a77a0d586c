//! Command-line vocabulary: screener and output modes, shared arguments,
//! and the parsing of category selections.

use vstd::prelude::*;

use crate::error::CryptoScopeError;
use crate::text::{str_eq, to_lowercase, unicode_lowercase};

verus! {

/// Screener mode: Ticker (fast, rolling 24h) or Kline (accurate, true daily open).
#[derive(Debug, Clone, Copy, PartialEq, Eq, Structural)]
pub enum ScreenerMode {
    /// Ticker mode uses rolling 24h price (prev_price_24h) - inaccurate for daily open
    Ticker,
    /// Kline mode uses true 00:00 UTC daily open from K-line endpoint - accurate
    Kline,
}

impl Default for ScreenerMode {
    fn default() -> (r: Self)
        ensures
            r == ScreenerMode::Kline,
    {
        ScreenerMode::Kline
    }
}

/// Output format of the command-line report.
#[derive(Debug, Clone, Copy, PartialEq, Eq, Structural)]
pub enum OutputMode {
    Text,
    Json,
    Tui,
}

impl Default for OutputMode {
    fn default() -> (r: Self)
        ensures
            r == OutputMode::Tui,
    {
        OutputMode::Tui
    }
}

/// Shared arguments for exchange and category selection.
#[derive(Debug, Clone)]
pub struct CommonArgs {
    /// Exchange to fetch from (e.g., bybit)
    pub exchange: String,
    /// Category: linear (USDT perpetuals), inverse, or all
    pub category: String,
}

/// The categories a lowercased category selection stands for, if known.
pub open spec fn categories_of(lowercased: Seq<char>) -> Option<Seq<Seq<char>>> {
    if lowercased == "all"@ {
        Some(seq!["linear"@, "inverse"@])
    } else if lowercased == "linear"@ {
        Some(seq!["linear"@])
    } else if lowercased == "inverse"@ {
        Some(seq!["inverse"@])
    } else {
        None
    }
}

/// The text of the error for an unknown category selection.
pub open spec fn unknown_category_text(category: Seq<char>) -> Seq<char> {
    "Unknown category '"@ + category + "'. Supported: all, linear, inverse"@
}

/// The views of a list of string slices.
pub open spec fn views(v: Seq<&'static str>) -> Seq<Seq<char>> {
    v.map_values(|s: &'static str| s@)
}

/// The result of parsing a category selection whose lowercase form is
/// `lowercased`; `category` is the selection as given, for the error.
pub open spec fn parsed_categories(
    lowercased: Seq<char>,
    category: Seq<char>,
    r: Result<Vec<&'static str>, CryptoScopeError>,
) -> bool {
    match categories_of(lowercased) {
        Some(list) => r matches Ok(v) && views(v@) == list,
        None => r matches Err(CryptoScopeError::ApiError { code, message })
            && code == -1 && message@ == unknown_category_text(category),
    }
}

/// Map an already lowercased category selection to the categories it names.
///
/// `category` is the selection as the user wrote it, quoted in the error for
/// an unknown selection.
pub fn categories_for_lowercase(lowercased: &str, category: &str) -> (r: Result<Vec<&'static str>, CryptoScopeError>)
    ensures
        parsed_categories(lowercased@, category@, r),
{
    proof {
        reveal_strlit("linear");
        reveal_strlit("inverse");
    }
    let mut v: Vec<&'static str> = Vec::new();
    if str_eq(lowercased, "all") {
        v.push("linear");
        v.push("inverse");
        assert(views(v@) =~= seq!["linear"@, "inverse"@]);
        Ok(v)
    } else if str_eq(lowercased, "linear") {
        v.push("linear");
        assert(views(v@) =~= seq!["linear"@]);
        Ok(v)
    } else if str_eq(lowercased, "inverse") {
        v.push("inverse");
        assert(views(v@) =~= seq!["inverse"@]);
        Ok(v)
    } else {
        let mut m = String::from_str("Unknown category '");
        m.append(category);
        m.append("'. Supported: all, linear, inverse");
        Err(CryptoScopeError::ApiError { code: -1, message: m })
    }
}

/// Parse category string into a vector of category names.
///
/// The selection is compared case-insensitively: "all" stands for linear
/// and inverse. Returns an error for unknown categories instead of silently
/// defaulting.
pub fn parse_categories(category: &str) -> (r: Result<Vec<&'static str>, CryptoScopeError>)
    ensures
        parsed_categories(unicode_lowercase(category@), category@, r),
{
    let lowered = to_lowercase(category);
    categories_for_lowercase(lowered.as_str(), category)
}

/// Parse categories from shared CLI arguments.
pub fn parse_categories_from(common: &CommonArgs) -> (r: Result<Vec<&'static str>, CryptoScopeError>)
    ensures
        parsed_categories(unicode_lowercase(common.category@), common.category@, r),
{
    parse_categories(common.category.as_str())
}

/// The effective output mode: `Text` when the `--cli` flag is set,
/// otherwise the configured mode.
pub fn effective_output_mode(cli_flag: bool, output: OutputMode) -> (r: OutputMode)
    ensures
        r == (if cli_flag { OutputMode::Text } else { output }),
{
    if cli_flag {
        OutputMode::Text
    } else {
        output
    }
}

} // verus!
