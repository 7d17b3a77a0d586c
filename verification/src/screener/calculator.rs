//! Pairing of current tickers with the cached open prices of their symbols.
//!
//! Prices are floating-point values and stay with the caller; the pairing
//! itself works on symbols and positions: for every ticker in order, the
//! position of the open price recorded for its symbol, where one exists.

use vstd::prelude::*;

use crate::text::{str_eq, string_views};

verus! {

/// Position of the last entry of `keys` equal to `k`, if any (later entries
/// for a symbol replace earlier ones, as insertion into a map does).
pub open spec fn last_index_of(keys: Seq<Seq<char>>, k: Seq<char>) -> Option<int>
    decreases keys.len(),
{
    if keys.len() == 0 {
        None
    } else if keys.last() == k {
        Some(keys.len() - 1)
    } else {
        last_index_of(keys.drop_last(), k)
    }
}

/// For every ticker symbol in order that has an open price, the pair
/// (position of the ticker, position of its open price).
pub open spec fn price_matches(open_keys: Seq<Seq<char>>, tickers: Seq<Seq<char>>) -> Seq<(int, int)>
    decreases tickers.len(),
{
    if tickers.len() == 0 {
        Seq::empty()
    } else {
        let rest = price_matches(open_keys, tickers.drop_last());
        match last_index_of(open_keys, tickers.last()) {
            Some(j) => rest.push((tickers.len() - 1, j)),
            None => rest,
        }
    }
}

/// What `last_index_of` picks: a matching position after which no entry
/// matches, or nothing when no entry matches.
pub proof fn lemma_last_index_of(keys: Seq<Seq<char>>, k: Seq<char>)
    ensures
        match last_index_of(keys, k) {
            Some(j) => 0 <= j < keys.len() && keys[j] == k
                && forall|l: int| j < l < keys.len() ==> keys[l] != k,
            None => forall|l: int| 0 <= l < keys.len() ==> keys[l] != k,
        },
    decreases keys.len(),
{
    if keys.len() > 0 {
        lemma_last_index_of(keys.drop_last(), k);
        if keys.last() != k {
            assert forall|l: int| 0 <= l < keys.len() - 1 implies keys[l] == keys.drop_last()[l] by {}
        }
    }
}

/// Position of the last open price recorded for `symbol`.
fn last_position(open_symbols: &[String], symbol: &str) -> (r: Option<usize>)
    ensures
        match r {
            Some(j) => last_index_of(string_views(open_symbols@), symbol@) == Some(j as int),
            None => last_index_of(string_views(open_symbols@), symbol@) is None,
        },
{
    let ghost keys = string_views(open_symbols@);
    let mut i = open_symbols.len();
    while i > 0
        invariant
            i <= open_symbols@.len(),
            keys == string_views(open_symbols@),
            forall|l: int| i <= l < keys.len() ==> keys[l] != symbol@,
        decreases i,
    {
        if str_eq(open_symbols[i - 1].as_str(), symbol) {
            proof {
                let j = (i - 1) as int;
                lemma_last_index_of(keys, symbol@);
                assert(keys[j] == symbol@);
                match last_index_of(keys, symbol@) {
                    Some(j0) => {
                        if j0 < j {
                            assert(keys[j] != symbol@);
                        } else if j0 > j {
                            assert(keys[j0] != symbol@);
                        }
                    },
                    None => {
                        assert(keys[j] != symbol@);
                    },
                }
            }
            return Some(i - 1);
        }
        i = i - 1;
    }
    proof {
        lemma_last_index_of(keys, symbol@);
        if let Some(j0) = last_index_of(keys, symbol@) {
            assert(keys[j0] != symbol@);
        }
    }
    None
}

/// Pair each current ticker with the open price of its symbol.
///
/// Returns, in ticker order, `(ticker position, open price position)` for
/// every ticker whose symbol has an open price; when a symbol has several
/// open prices the last one counts. Tickers without an open price are left
/// out.
pub fn match_open_prices(open_symbols: &[String], ticker_symbols: &[String]) -> (r: Vec<(usize, usize)>)
    ensures
        r@.len() == price_matches(string_views(open_symbols@), string_views(ticker_symbols@)).len(),
        forall|i: int| 0 <= i < r@.len() ==> {
            let m = #[trigger] price_matches(string_views(open_symbols@), string_views(ticker_symbols@))[i];
            r@[i].0 as int == m.0 && r@[i].1 as int == m.1
        },
{
    let ghost keys = string_views(open_symbols@);
    let ghost tks = string_views(ticker_symbols@);
    let mut r: Vec<(usize, usize)> = Vec::new();
    let n = ticker_symbols.len();
    let mut i: usize = 0;
    while i < n
        invariant
            n == ticker_symbols@.len(),
            i <= n,
            keys == string_views(open_symbols@),
            tks == string_views(ticker_symbols@),
            r@.len() == price_matches(keys, tks.subrange(0, i as int)).len(),
            forall|k: int| 0 <= k < r@.len() ==> {
                let m = #[trigger] price_matches(keys, tks.subrange(0, i as int))[k];
                r@[k].0 as int == m.0 && r@[k].1 as int == m.1
            },
        decreases n - i,
    {
        let ghost before = price_matches(keys, tks.subrange(0, i as int));
        assert(tks.subrange(0, i + 1).drop_last() =~= tks.subrange(0, i as int));
        assert(tks.subrange(0, i + 1).last() == ticker_symbols@[i as int]@);
        match last_position(open_symbols, ticker_symbols[i].as_str()) {
            Some(j) => {
                r.push((i, j));
            },
            None => {},
        }
        i = i + 1;
    }
    assert(tks.subrange(0, n as int) =~= tks);
    r
}

/// Law: the pairing keeps tickers in their order, pairs each with an open
/// price of the same symbol (the last one recorded), and leaves out exactly
/// the tickers whose symbol has no open price.
pub proof fn law_price_matches(open_keys: Seq<Seq<char>>, tickers: Seq<Seq<char>>)
    ensures
        forall|a: int, b: int| 0 <= a < b < price_matches(open_keys, tickers).len()
            ==> #[trigger] price_matches(open_keys, tickers)[a].0 < #[trigger] price_matches(open_keys, tickers)[b].0,
        forall|k: int| 0 <= k < price_matches(open_keys, tickers).len() ==> {
            let m = #[trigger] price_matches(open_keys, tickers)[k];
            &&& 0 <= m.0 < tickers.len()
            &&& last_index_of(open_keys, tickers[m.0]) == Some(m.1)
        },
        forall|t: int| 0 <= t < tickers.len() && last_index_of(open_keys, #[trigger] tickers[t]) is Some
            ==> exists|k: int| 0 <= k < price_matches(open_keys, tickers).len()
                && (#[trigger] price_matches(open_keys, tickers)[k]).0 == t,
    decreases tickers.len(),
{
    if tickers.len() > 0 {
        let rest = tickers.drop_last();
        law_price_matches(open_keys, rest);
        let pr = price_matches(open_keys, rest);
        let p = price_matches(open_keys, tickers);
        assert forall|k: int| 0 <= k < pr.len() implies #[trigger] pr[k].0 < rest.len() && tickers[pr[k].0] == rest[pr[k].0] by {}
        assert forall|t: int| 0 <= t < tickers.len() && last_index_of(open_keys, #[trigger] tickers[t]) is Some
            implies exists|k: int| 0 <= k < p.len() && (#[trigger] p[k]).0 == t by {
            if t < rest.len() {
                assert(rest[t] == tickers[t]);
                let k = choose|k: int| 0 <= k < pr.len() && (#[trigger] pr[k]).0 == t;
                assert(p[k] == pr[k]);
            } else {
                assert(p[p.len() - 1].0 == t);
            }
        }
    }
}

} // verus!
