//! Choice of exchange client by name.

use vstd::prelude::*;

use super::bybit::EXCHANGE_NAME;
use crate::error::CryptoScopeError;
use crate::text::{ascii_lowered, is_ascii_text, owned, str_eq, to_lowercase, unicode_lowercase};

verus! {

/// The exchanges CryptoScope can talk to.
#[derive(Debug, Clone, Copy, PartialEq, Eq)]
pub enum ExchangeKind {
    /// Bybit V5 (linear and inverse contracts).
    Bybit,
}

impl ExchangeKind {
    /// The name the exchange is known by.
    pub open spec fn name_text(self) -> Seq<char> {
        match self {
            ExchangeKind::Bybit => "bybit"@,
        }
    }

    /// The name of the exchange.
    pub fn name(&self) -> (r: &'static str)
        ensures
            r@ == self.name_text(),
    {
        match self {
            ExchangeKind::Bybit => EXCHANGE_NAME,
        }
    }
}

/// The names of the supported exchanges.
pub open spec fn supported_exchange_names() -> Seq<Seq<char>> {
    seq!["bybit"@]
}

/// The Unicode lowercase form of a name, written out for ASCII names.
pub open spec fn lowercase_name(name: Seq<char>) -> Seq<char> {
    if is_ascii_text(name) { ascii_lowered(name) } else { unicode_lowercase(name) }
}

/// The exchange a name selects, if any: the one whose name equals the
/// name's lowercase form.
pub open spec fn selected_exchange(name: Seq<char>) -> Option<ExchangeKind> {
    if lowercase_name(name) == "bybit"@ { Some(ExchangeKind::Bybit) } else { None }
}

/// Get list of supported exchanges.
pub fn get_supported_exchanges() -> (r: Vec<&'static str>)
    ensures
        r@.map_values(|s: &'static str| s@) == supported_exchange_names(),
{
    proof { reveal_strlit("bybit"); }
    let mut r: Vec<&'static str> = Vec::new();
    r.push(EXCHANGE_NAME);
    assert(r@.map_values(|s: &'static str| s@) =~= supported_exchange_names());
    r
}

/// Select the exchange client for a name, compared case-insensitively
/// (after Unicode lowercasing).
pub fn select_exchange(name: &str) -> (r: Result<ExchangeKind, CryptoScopeError>)
    ensures
        selected_exchange(name@) matches Some(k) ==> r == Ok::<ExchangeKind, CryptoScopeError>(k),
        selected_exchange(name@) is None ==> (r matches Err(CryptoScopeError::UnknownExchange(n)) && n@ == name@),
{
    let lower = to_lowercase(name);
    assert(lower@ == lowercase_name(name@));
    if str_eq(lower.as_str(), "bybit") {
        Ok(ExchangeKind::Bybit)
    } else {
        Err(CryptoScopeError::UnknownExchange(owned(name)))
    }
}

/// Law: every supported exchange name selects an exchange, and the
/// exchange it selects goes by that name.
pub proof fn law_supported_exchanges_are_selectable()
    ensures
        forall|i: int| 0 <= i < supported_exchange_names().len() ==>
            ((#[trigger] selected_exchange(supported_exchange_names()[i])) matches Some(k)
                && k.name_text() == supported_exchange_names()[i]),
{
    reveal_strlit("bybit");
    let name = "bybit"@;
    lemma_ascii_lowered_keeps_lowercase(name);
    assert forall|i: int| 0 <= i < supported_exchange_names().len() implies
        ((#[trigger] selected_exchange(supported_exchange_names()[i])) matches Some(k)
            && k.name_text() == supported_exchange_names()[i]) by {
        assert(supported_exchange_names()[i] == name);
    }
}

/// Lowering text that holds only lowercase ASCII letters changes nothing.
proof fn lemma_ascii_lowered_keeps_lowercase(s: Seq<char>)
    requires
        forall|i: int| 0 <= i < s.len() ==> 'a' <= #[trigger] s[i] && s[i] <= 'z',
    ensures
        is_ascii_text(s),
        ascii_lowered(s) == s,
{
    assert(ascii_lowered(s) =~= s);
}

} // verus!
