//! JSON document of fetched symbols with per-category counts.
//!
//! The document is built here; turning it into JSON text is the caller's
//! part.

use vstd::prelude::*;

use crate::models::statistics::Statistics;
use crate::models::symbol::Symbol;
use crate::text::{decimal, digit_char, owned, push_decimal, str_views, string_views};

verus! {

/// JSON output structure for machine-readable output.
///
/// Contains all the data needed for a complete JSON report including
/// exchange info, categories, timestamp, statistics, and full symbol list.
pub struct JsonOutput {
    /// Name of the exchange (e.g., "bybit")
    pub exchange: String,
    /// List of categories included in the output
    pub categories: Vec<String>,
    /// Unix timestamp of when the report was generated
    pub timestamp: String,
    /// Aggregated statistics about the symbols
    pub statistics: JsonStatistics,
    /// List of all symbols with their details
    pub symbols: Vec<JsonSymbol>,
}

/// Statistics in JSON-serializable format
///
/// Contains counts organized by category for machine-readable output.
pub struct JsonStatistics {
    /// Total number of symbols
    pub total_count: usize,
    /// Count of symbols by category
    pub by_category: Vec<CategoryCount>,
}

/// Category count pair for JSON output
pub struct CategoryCount {
    /// The category name (e.g., "linear", "inverse")
    pub category: String,
    /// Number of symbols in this category
    pub count: usize,
}

/// Symbol information in JSON-serializable format
pub struct JsonSymbol {
    /// The symbol/ticker name (e.g., "BTCUSDT")
    pub symbol: String,
    /// Category of the instrument
    pub category: String,
    /// Type of contract
    pub contract_type: String,
    /// Base currency code
    pub base_coin: String,
    /// Quote currency code
    pub quote_coin: String,
}

impl JsonSymbol {
    /// This entry renders `s`: its name, and its category, contract type,
    /// base and quote coin with their fallbacks.
    pub open spec fn renders(self, s: Symbol) -> bool {
        &&& self.symbol@ == s.symbol@
        &&& self.category@ == s.category_text()
        &&& self.contract_type@ == s.contract_type_text()
        &&& self.base_coin@ == s.base_coin_text()
        &&& self.quote_coin@ == s.quote_coin_text()
    }

    /// The entry for one symbol.
    pub fn from_symbol(s: &Symbol) -> (r: JsonSymbol)
        ensures
            r.renders(*s),
    {
        JsonSymbol {
            symbol: s.symbol.clone(),
            category: owned(s.category()),
            contract_type: owned(s.contract_type()),
            base_coin: owned(s.base_coin()),
            quote_coin: owned(s.quote_coin()),
        }
    }
}

/// The entries render the symbols one for one, in order.
pub open spec fn renders_all(entries: Seq<JsonSymbol>, symbols: Seq<Symbol>) -> bool {
    &&& entries.len() == symbols.len()
    &&& forall|i: int| 0 <= i < symbols.len() ==> (#[trigger] entries[i]).renders(symbols[i])
}

/// The entries list the category counts one for one, in order.
pub open spec fn lists_counts(entries: Seq<CategoryCount>, counts: Seq<(String, usize)>) -> bool {
    &&& entries.len() == counts.len()
    &&& forall|i: int| 0 <= i < counts.len() ==> {
        &&& (#[trigger] entries[i]).category@ == counts[i].0@
        &&& entries[i].count == counts[i].1
    }
}

/// Entries for all symbols, in order.
pub fn json_symbols(symbols: &[Symbol]) -> (r: Vec<JsonSymbol>)
    ensures
        renders_all(r@, symbols@),
{
    let mut r: Vec<JsonSymbol> = Vec::new();
    let mut i: usize = 0;
    while i < symbols.len()
        invariant
            i <= symbols@.len(),
            r@.len() == i,
            forall|k: int| 0 <= k < i ==> (#[trigger] r@[k]).renders(symbols@[k]),
        decreases symbols@.len() - i,
    {
        r.push(JsonSymbol::from_symbol(&symbols[i]));
        i = i + 1;
    }
    r
}

/// Owned copies of category names, in order.
pub fn owned_names(categories: &[&str]) -> (r: Vec<String>)
    ensures
        string_views(r@) == str_views(categories@),
{
    let mut r: Vec<String> = Vec::new();
    let mut i: usize = 0;
    while i < categories.len()
        invariant
            i <= categories@.len(),
            r@.len() == i,
            forall|k: int| 0 <= k < i ==> (#[trigger] r@[k])@ == categories@[k]@,
        decreases categories@.len() - i,
    {
        r.push(owned(categories[i]));
        i = i + 1;
    }
    assert(string_views(r@) =~= str_views(categories@));
    r
}

fn category_counts(counts: &Vec<(String, usize)>) -> (r: Vec<CategoryCount>)
    ensures
        lists_counts(r@, counts@),
{
    let mut r: Vec<CategoryCount> = Vec::new();
    let mut i: usize = 0;
    while i < counts.len()
        invariant
            i <= counts@.len(),
            r@.len() == i,
            forall|k: int| 0 <= k < i ==> {
                &&& (#[trigger] r@[k]).category@ == counts@[k].0@
                &&& r@[k].count == counts@[k].1
            },
        decreases counts@.len() - i,
    {
        r.push(CategoryCount { category: counts[i].0.clone(), count: counts[i].1 });
        i = i + 1;
    }
    r
}

/// The timestamp text: whole seconds since the Unix epoch, a dot, and the
/// nanoseconds of the current second (without leading zeros).
pub open spec fn epoch_timestamp_text(secs: nat, nanos: nat) -> Seq<char> {
    decimal(secs) + "."@ + decimal(nanos)
}

/// A decimal rendering is non-empty, has one digit exactly for numbers
/// below ten, and holds no dot.
proof fn lemma_decimal_shape(n: nat)
    ensures
        decimal(n).len() >= 1,
        (n < 10) == (decimal(n).len() == 1),
        forall|i: int| 0 <= i < decimal(n).len() ==> #[trigger] decimal(n)[i] != '.',
    decreases n,
{
    if n >= 10 {
        lemma_decimal_shape(n / 10);
        let d = decimal(n / 10);
        assert forall|i: int| 0 <= i < decimal(n).len() implies #[trigger] decimal(n)[i] != '.' by {
            if i < d.len() {
                assert(decimal(n)[i] == d[i]);
            }
        }
    }
}

/// Different numbers have different decimal renderings.
proof fn lemma_decimal_injective(a: nat, b: nat)
    requires
        decimal(a) == decimal(b),
    ensures
        a == b,
    decreases a,
{
    lemma_decimal_shape(a);
    lemma_decimal_shape(b);
    if a >= 10 {
        assert(b >= 10);
        assert(decimal(a).drop_last() == decimal(a / 10));
        assert(decimal(b).drop_last() == decimal(b / 10));
        lemma_decimal_injective(a / 10, b / 10);
        assert(decimal(a).last() == digit_char(a % 10));
        assert(decimal(b).last() == digit_char(b % 10));
        assert(digit_char(a % 10) == digit_char(b % 10));
        assert(a % 10 == b % 10);
    } else {
        assert(b < 10);
        assert(decimal(a)[0] == digit_char(a));
        assert(decimal(b)[0] == digit_char(b));
    }
}

/// Law: the timestamp text identifies the clock reading it was made from:
/// two readings give the same text only when their seconds and their
/// nanoseconds are equal.
pub proof fn law_epoch_timestamp_identifies_reading(secs1: nat, nanos1: nat, secs2: nat, nanos2: nat)
    requires
        epoch_timestamp_text(secs1, nanos1) == epoch_timestamp_text(secs2, nanos2),
    ensures
        secs1 == secs2,
        nanos1 == nanos2,
{
    reveal_strlit(".");
    let a = decimal(secs1);
    let c = decimal(secs2);
    let t = epoch_timestamp_text(secs1, nanos1);
    lemma_decimal_shape(secs1);
    lemma_decimal_shape(secs2);
    lemma_decimal_shape(nanos1);
    lemma_decimal_shape(nanos2);
    assert(t == a + "."@ + decimal(nanos1));
    assert(t == c + "."@ + decimal(nanos2));
    if a.len() < c.len() {
        assert(t[a.len() as int] == '.');
        assert(t[a.len() as int] == c[a.len() as int]);
    }
    if c.len() < a.len() {
        assert(t[c.len() as int] == '.');
        assert(t[c.len() as int] == a[c.len() as int]);
    }
    assert(a.len() == c.len());
    assert(t.subrange(0, a.len() as int) =~= a);
    assert(t.subrange(0, c.len() as int) =~= c);
    lemma_decimal_injective(secs1, secs2);
    assert(t.subrange(a.len() as int + 1, t.len() as int) =~= decimal(nanos1));
    assert(t.subrange(c.len() as int + 1, t.len() as int) =~= decimal(nanos2));
    lemma_decimal_injective(nanos1, nanos2);
}

/// The timestamp of a clock reading: `secs.nanos` of the reading, or `0.0`
/// when the clock gave none (set before the epoch).
pub open spec fn reading_timestamp_text(reading: Option<(u64, u32)>) -> Seq<char> {
    match reading {
        Some((secs, nanos)) => epoch_timestamp_text(secs as nat, nanos as nat),
        None => epoch_timestamp_text(0, 0),
    }
}

/// Trusted: `SystemTime::now().duration_since(UNIX_EPOCH)`, as whole seconds
/// and the nanoseconds of the current second; `None` when the clock is set
/// before the epoch. The result depends on the clock, so nothing is claimed
/// but the range of the nanoseconds.
#[verifier::external_body]
pub(crate) fn time_since_epoch() -> (r: Option<(u64, u32)>)
    ensures
        r matches Some(t) ==> t.1 < 1_000_000_000,
{
    match std::time::SystemTime::now().duration_since(std::time::UNIX_EPOCH) {
        Ok(d) => Some((d.as_secs(), d.subsec_nanos())),
        Err(_) => None,
    }
}

/// The timestamp of a report made at `secs` seconds and `nanos`
/// nanoseconds after the Unix epoch.
pub fn epoch_timestamp(secs: u64, nanos: u32) -> (r: String)
    ensures
        r@ == epoch_timestamp_text(secs as nat, nanos as nat),
{
    let mut s = String::new();
    push_decimal(&mut s, secs);
    proof {
        reveal_strlit(".");
    }
    s.append(".");
    push_decimal(&mut s, nanos as u64);
    s
}

impl JsonOutput {
    /// The document for the given data with the given timestamp.
    pub fn with_timestamp(
        exchange: &str,
        categories: &[&str],
        symbols: &[Symbol],
        stats: &Statistics,
        timestamp: String,
    ) -> (r: Self)
        ensures
            r.exchange@ == exchange@,
            string_views(r.categories@) == str_views(categories@),
            r.timestamp@ == timestamp@,
            r.statistics.total_count == stats.total_count,
            lists_counts(r.statistics.by_category@, stats.by_category@),
            renders_all(r.symbols@, symbols@),
    {
        JsonOutput {
            exchange: owned(exchange),
            categories: owned_names(categories),
            timestamp,
            statistics: JsonStatistics {
                total_count: stats.total_count,
                by_category: category_counts(&stats.by_category),
            },
            symbols: json_symbols(symbols),
        }
    }

    /// The document for the given data, stamped with the given clock
    /// reading (`0.0` for none).
    pub fn at_clock_reading(
        exchange: &str,
        categories: &[&str],
        symbols: &[Symbol],
        stats: &Statistics,
        reading: Option<(u64, u32)>,
    ) -> (r: Self)
        ensures
            r.exchange@ == exchange@,
            string_views(r.categories@) == str_views(categories@),
            r.timestamp@ == reading_timestamp_text(reading),
            r.statistics.total_count == stats.total_count,
            lists_counts(r.statistics.by_category@, stats.by_category@),
            renders_all(r.symbols@, symbols@),
    {
        let (secs, nanos) = match reading {
            Some(t) => t,
            None => (0u64, 0u32),
        };
        let timestamp = epoch_timestamp(secs, nanos);
        Self::with_timestamp(exchange, categories, symbols, stats, timestamp)
    }

    /// Create JSON output from fetched data
    ///
    /// Converts symbols and statistics into JSON-serializable format
    /// with exchange info and timestamp (seconds and nanoseconds since the
    /// Unix epoch; `0.0` for a clock set before the epoch).
    pub fn new(exchange: &str, categories: &[&str], symbols: &[Symbol], stats: &Statistics) -> (r: Self)
        ensures
            r.exchange@ == exchange@,
            string_views(r.categories@) == str_views(categories@),
            exists|secs: nat, nanos: nat| #[trigger] epoch_timestamp_text(secs, nanos) == r.timestamp@,
            r.statistics.total_count == stats.total_count,
            lists_counts(r.statistics.by_category@, stats.by_category@),
            renders_all(r.symbols@, symbols@),
    {
        let reading = time_since_epoch();
        let r = Self::at_clock_reading(exchange, categories, symbols, stats, reading);
        proof {
            match reading {
                Some((secs, nanos)) => {
                    assert(epoch_timestamp_text(secs as nat, nanos as nat) == r.timestamp@);
                },
                None => {
                    assert(epoch_timestamp_text(0, 0) == r.timestamp@);
                },
            }
        }
        r
    }
}

} // verus!
