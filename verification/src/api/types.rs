//! API request/response types and input validation.

use vstd::prelude::*;

use crate::models::statistics::Statistics;
use crate::models::symbol::Symbol;
use crate::pattern::{is_ident, regex_is_match};
pub use crate::text::byte_len;
use crate::text::owned;

verus! {

/// A failed check of one query field.
#[derive(Debug, Clone)]
pub struct FieldError {
    /// The name of the field
    pub field: String,
    /// What is wrong with it
    pub message: String,
}

/// The `(field, message)` texts of a list of field errors.
pub open spec fn field_errors_view(v: Seq<FieldError>) -> Seq<(Seq<char>, Seq<char>)> {
    v.map_values(|e: FieldError| (e.field@, e.message@))
}

/// What is wrong with an exchange name, if anything: it must be 1-50 bytes
/// long and consist of ASCII letters, digits, `_` and `-`.
pub open spec fn exchange_name_problem(exchange: Seq<char>) -> Option<Seq<char>> {
    if exchange.len() == 0 || byte_len(exchange) > 50 {
        Some("Exchange name must be 1-50 characters"@)
    } else if !is_ident(exchange) {
        Some("Exchange name contains invalid characters"@)
    } else {
        None
    }
}

/// Validates exchange name: 1-50 characters, alphanumeric with underscores/hyphens only.
pub fn validate_exchange(exchange: &str) -> (r: Result<(), String>)
    ensures
        exchange_name_problem(exchange@) is None ==> r is Ok,
        exchange_name_problem(exchange@) matches Some(m) ==> (r matches Err(e) && e@ == m),
{
    if exchange.unicode_len() == 0 || exchange.as_bytes().len() > 50 {
        return Err(owned("Exchange name must be 1-50 characters"));
    }
    assert(exchange@.len() > 0 && byte_len(exchange@) <= 50);
    match regex_is_match("^[a-zA-Z0-9_-]+$", exchange) {
        Some(true) => Ok(()),
        _ => Err(owned("Exchange name contains invalid characters")),
    }
}

/// The problem of an optional text field limited to `max` characters.
pub open spec fn length_problem(value: Option<String>, max: nat, message: Seq<char>) -> Option<Seq<char>> {
    match value {
        Some(v) => if v@.len() > max { Some(message) } else { None },
        None => None,
    }
}

/// The list of field problems, in field order, skipping fields without one.
pub open spec fn problems(entries: Seq<(Seq<char>, Option<Seq<char>>)>) -> Seq<(Seq<char>, Seq<char>)>
    decreases entries.len(),
{
    if entries.len() == 0 {
        Seq::empty()
    } else {
        let rest = problems(entries.drop_last());
        match entries.last().1 {
            Some(m) => rest.push((entries.last().0, m)),
            None => rest,
        }
    }
}

/// The outcome of a validation that found `expected` problems.
pub open spec fn validation_outcome(expected: Seq<(Seq<char>, Seq<char>)>, r: Result<(), Vec<FieldError>>) -> bool {
    if expected.len() == 0 {
        r is Ok
    } else {
        r matches Err(v) && field_errors_view(v@) == expected
    }
}

fn push_problem(errors: &mut Vec<FieldError>, field: &str, problem: Option<String>)
    ensures
        field_errors_view(final(errors)@) == field_errors_view(old(errors)@) + match problem {
            Some(m) => seq![(field@, m@)],
            None => Seq::empty(),
        },
{
    match problem {
        Some(m) => {
            errors.push(FieldError { field: owned(field), message: m });
            assert(field_errors_view(errors@) =~= field_errors_view(old(errors)@) + seq![(field@, errors@.last().message@)]);
        },
        None => {
            assert(field_errors_view(errors@) =~= field_errors_view(old(errors)@) + Seq::empty());
        },
    }
}

fn check_length(value: &Option<String>, max: usize, message: &str) -> (r: Option<String>)
    ensures
        match length_problem(*value, max as nat, message@) {
            Some(m) => r matches Some(s) && s@ == m,
            None => r is None,
        },
{
    match value {
        Some(v) => if v.as_str().unicode_len() > max { Some(owned(message)) } else { None },
        None => None,
    }
}

fn finish(errors: Vec<FieldError>) -> (r: Result<(), Vec<FieldError>>)
    ensures
        errors@.len() == 0 ==> r is Ok,
        errors@.len() > 0 ==> r == Err::<(), Vec<FieldError>>(errors),
{
    if errors.len() == 0 { Ok(()) } else { Err(errors) }
}

fn exchange_problem(exchange: &str) -> (r: Option<String>)
    ensures
        match exchange_name_problem(exchange@) {
            Some(m) => r matches Some(s) && s@ == m,
            None => r is None,
        },
{
    match validate_exchange(exchange) {
        Ok(()) => None,
        Err(e) => Some(e),
    }
}

/// Exchange list response payload.
#[derive(Debug, Clone)]
pub struct ExchangeListResponse {
    pub exchanges: Vec<String>,
}

impl ExchangeListResponse {
    /// The list of supported exchanges.
    pub fn supported() -> (r: Self)
        ensures
            r.exchanges@.map_values(|s: String| s@) == crate::exchange::factory::supported_exchange_names(),
    {
        let names = crate::exchange::get_supported_exchanges();
        let mut exchanges: Vec<String> = Vec::new();
        let mut i: usize = 0;
        while i < names.len()
            invariant
                i <= names@.len(),
                exchanges@.len() == i,
                forall|k: int| 0 <= k < i ==> #[trigger] exchanges@[k]@ == names@[k]@,
            decreases names@.len() - i,
        {
            exchanges.push(owned(names[i]));
            i = i + 1;
        }
        assert(exchanges@.map_values(|s: String| s@) =~= names@.map_values(|s: &'static str| s@));
        ExchangeListResponse { exchanges }
    }
}

/// Query parameters of the symbols endpoint.
#[derive(Debug, Clone)]
pub struct SymbolQuery {
    /// Exchange name (e.g., "bybit")
    pub exchange: String,
    /// Category filter (e.g., "linear", "inverse", "spot")
    pub category: Option<String>,
    /// Search term to filter symbols by name
    pub search: Option<String>,
}

impl SymbolQuery {
    /// The problems of this query, in field order.
    pub open spec fn expected_problems(self) -> Seq<(Seq<char>, Seq<char>)> {
        problems(seq![
            ("exchange"@, exchange_name_problem(self.exchange@)),
            ("category"@, length_problem(self.category, 50, "Category must be at most 50 characters"@)),
            ("search"@, length_problem(self.search, 100, "Search term must be at most 100 characters"@)),
        ])
    }

    /// Validate the query: a well-formed exchange name, a category of at
    /// most 50 characters and a search term of at most 100 characters.
    pub fn validate(&self) -> (r: Result<(), Vec<FieldError>>)
        ensures
            validation_outcome(self.expected_problems(), r),
    {
        let mut errors: Vec<FieldError> = Vec::new();
        push_problem(&mut errors, "exchange", exchange_problem(self.exchange.as_str()));
        push_problem(&mut errors, "category", check_length(&self.category, 50, "Category must be at most 50 characters"));
        push_problem(&mut errors, "search", check_length(&self.search, 100, "Search term must be at most 100 characters"));
        let ghost entries = seq![
            ("exchange"@, exchange_name_problem(self.exchange@)),
            ("category"@, length_problem(self.category, 50, "Category must be at most 50 characters"@)),
            ("search"@, length_problem(self.search, 100, "Search term must be at most 100 characters"@)),
        ];
        assert(entries.drop_last().drop_last().drop_last() =~= Seq::empty());
        assert(entries.drop_last().drop_last().last() == entries[0]);
        assert(entries.drop_last().last() == entries[1]);
        reveal_with_fuel(problems, 4);
        assert(field_errors_view(errors@) =~= self.expected_problems());
        finish(errors)
    }
}

/// Response payload of the symbols endpoint.
#[derive(Debug, Clone)]
pub struct SymbolResponse {
    pub symbols: Vec<Symbol>,
}

/// Screener mode of the screener endpoint: kline (true daily open) or mark (mark price).
#[derive(Debug, Clone, Copy, PartialEq, Eq, Structural)]
pub enum ScreenerModeQuery {
    /// Kline mode uses true 00:00 UTC daily open from K-line endpoint
    Kline,
    /// Mark mode uses mark price (not yet implemented)
    Mark,
}

impl Default for ScreenerModeQuery {
    fn default() -> (r: Self)
        ensures
            r == ScreenerModeQuery::Kline,
    {
        ScreenerModeQuery::Kline
    }
}

/// Default number of screener results.
pub fn default_top() -> (r: usize)
    ensures
        r == 20,
{
    20
}

/// The problems of the non-numeric part of a screener query and of its
/// `top` value (at most 100), in field order.
pub open spec fn screener_query_problems(exchange: Seq<char>, category: Option<String>, top: usize) -> Seq<(Seq<char>, Seq<char>)> {
    problems(seq![
        ("exchange"@, exchange_name_problem(exchange)),
        ("category"@, length_problem(category, 50, "Category must be at most 50 characters"@)),
        ("top"@, if top > 100 { Some("Top value cannot exceed 100"@) } else { None }),
    ])
}

/// Validate the exchange, category and `top` fields of a screener query.
pub fn validate_screener_fields(exchange: &str, category: &Option<String>, top: usize) -> (r: Vec<FieldError>)
    ensures
        field_errors_view(r@) == screener_query_problems(exchange@, *category, top),
{
    let mut errors: Vec<FieldError> = Vec::new();
    push_problem(&mut errors, "exchange", exchange_problem(exchange));
    push_problem(&mut errors, "category", check_length(category, 50, "Category must be at most 50 characters"));
    let top_problem = if top > 100 { Some(owned("Top value cannot exceed 100")) } else { None };
    push_problem(&mut errors, "top", top_problem);
    let ghost entries = seq![
        ("exchange"@, exchange_name_problem(exchange@)),
        ("category"@, length_problem(*category, 50, "Category must be at most 50 characters"@)),
        ("top"@, if top > 100 { Some("Top value cannot exceed 100"@) } else { None::<Seq<char>> }),
    ];
    assert(entries.drop_last().drop_last().drop_last() =~= Seq::empty());
    assert(entries.drop_last().drop_last().last() == entries[0]);
    assert(entries.drop_last().last() == entries[1]);
    reveal_with_fuel(problems, 4);
    assert(field_errors_view(errors@) =~= screener_query_problems(exchange@, *category, top));
    errors
}

/// Query parameters of the stats endpoint.
#[derive(Debug, Clone)]
pub struct StatsQuery {
    /// Exchange name (e.g., "bybit")
    pub exchange: String,
    /// Category filter (e.g., "linear", "inverse", "spot")
    pub category: Option<String>,
}

impl StatsQuery {
    /// The problems of this query, in field order.
    pub open spec fn expected_problems(self) -> Seq<(Seq<char>, Seq<char>)> {
        problems(seq![
            ("exchange"@, exchange_name_problem(self.exchange@)),
            ("category"@, length_problem(self.category, 50, "Category must be at most 50 characters"@)),
        ])
    }

    /// Validate the query: a well-formed exchange name and a category of at
    /// most 50 characters.
    pub fn validate(&self) -> (r: Result<(), Vec<FieldError>>)
        ensures
            validation_outcome(self.expected_problems(), r),
    {
        let mut errors: Vec<FieldError> = Vec::new();
        push_problem(&mut errors, "exchange", exchange_problem(self.exchange.as_str()));
        push_problem(&mut errors, "category", check_length(&self.category, 50, "Category must be at most 50 characters"));
        let ghost entries = seq![
            ("exchange"@, exchange_name_problem(self.exchange@)),
            ("category"@, length_problem(self.category, 50, "Category must be at most 50 characters"@)),
        ];
        assert(entries.drop_last().drop_last() =~= Seq::empty());
        assert(entries.drop_last().last() == entries[0]);
        reveal_with_fuel(problems, 4);
        assert(field_errors_view(errors@) =~= self.expected_problems());
        finish(errors)
    }
}

/// Response payload of the stats endpoint.
#[derive(Debug, Clone)]
pub struct StatsResponse {
    pub statistics: Statistics,
}

/// Response payload of the refresh endpoint.
#[derive(Debug, Clone)]
pub struct RefreshResponse {
    pub status: String,
    pub count: usize,
}

impl RefreshResponse {
    /// The answer after clearing `count` cached prices.
    pub fn refreshed(count: usize) -> (r: Self)
        ensures
            r.status@ == "refreshed"@,
            r.count == count,
    {
        RefreshResponse { status: owned("refreshed"), count }
    }
}

/// Standard error response format.
#[derive(Debug, Clone)]
pub struct ErrorResponse {
    pub error: String,
    pub details: Option<String>,
}

impl ErrorResponse {
    /// An error response without details.
    pub fn new(error: String) -> (r: Self)
        ensures
            r.error == error,
            r.details is None,
    {
        ErrorResponse { error, details: None }
    }

    /// An error response with details.
    pub fn with_details(error: String, details: String) -> (r: Self)
        ensures
            r.error == error,
            r.details == Some(details),
    {
        ErrorResponse { error, details: Some(details) }
    }
}

} // verus!
