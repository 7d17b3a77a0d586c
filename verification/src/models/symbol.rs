//! Trading instruments as reported by an exchange.

use vstd::prelude::*;

verus! {

/// A cryptocurrency trading instrument/symbol.
///
/// Contains metadata about a trading pair including contract type
/// and other trading parameters from the Bybit exchange.
#[derive(Debug, Clone)]
pub struct Symbol {
    /// The symbol/ticker name (e.g., "BTCUSDT")
    pub symbol: String,
    /// Category of the instrument (e.g., "linear", "inverse")
    pub category: Option<String>,
    /// Type of contract (e.g., "Linear", "InversePerpetual")
    pub contract_type: Option<String>,
    /// Base currency code (e.g., "BTC")
    pub base_coin: Option<String>,
    /// Quote currency code (e.g., "USDT")
    pub quote_coin: Option<String>,
    /// Unix timestamp when the symbol was launched
    pub launch_time: Option<String>,
    /// Unix timestamp for delivery (futures contracts)
    pub delivery_time: Option<String>,
    /// Delivery fee rate for futures contracts
    pub delivery_fee_rate: Option<String>,
}

/// The text of an optional field, or `fallback` when it is absent.
pub open spec fn text_or(field: Option<String>, fallback: Seq<char>) -> Seq<char> {
    match field {
        Some(s) => s@,
        None => fallback,
    }
}

fn clone_opt(o: &Option<String>) -> (r: Option<String>)
    ensures
        r == *o,
{
    match o {
        Some(s) => Some(s.clone()),
        None => None,
    }
}

impl Symbol {
    /// Category with fallback: the text of `category`, or "unknown".
    pub open spec fn category_text(self) -> Seq<char> {
        text_or(self.category, "unknown"@)
    }

    /// Contract type with fallback: the text of `contract_type`, or "Unknown".
    pub open spec fn contract_type_text(self) -> Seq<char> {
        text_or(self.contract_type, "Unknown"@)
    }

    /// Base coin with fallback: the text of `base_coin`, or "UNKNOWN".
    pub open spec fn base_coin_text(self) -> Seq<char> {
        text_or(self.base_coin, "UNKNOWN"@)
    }

    /// Quote coin with fallback: the text of `quote_coin`, or "UNKNOWN".
    pub open spec fn quote_coin_text(self) -> Seq<char> {
        text_or(self.quote_coin, "UNKNOWN"@)
    }

    /// Get category with fallback to "unknown".
    ///
    /// Returns the instrument category (e.g., "linear", "inverse") or "unknown"
    /// if not specified.
    pub fn category(&self) -> (r: &str)
        ensures
            r@ == self.category_text(),
    {
        match &self.category {
            Some(c) => c.as_str(),
            None => "unknown",
        }
    }

    /// Get contract type with fallback.
    ///
    /// Returns the contract type (e.g., "Linear", "InversePerpetual") or "Unknown"
    /// if not specified.
    pub fn contract_type(&self) -> (r: &str)
        ensures
            r@ == self.contract_type_text(),
    {
        match &self.contract_type {
            Some(c) => c.as_str(),
            None => "Unknown",
        }
    }

    /// Get base coin with fallback.
    ///
    /// Returns the base currency code (e.g., "BTC") or "UNKNOWN" if not specified.
    pub fn base_coin(&self) -> (r: &str)
        ensures
            r@ == self.base_coin_text(),
    {
        match &self.base_coin {
            Some(c) => c.as_str(),
            None => "UNKNOWN",
        }
    }

    /// Get quote coin with fallback.
    ///
    /// Returns the quote currency code (e.g., "USDT") or "UNKNOWN" if not specified.
    pub fn quote_coin(&self) -> (r: &str)
        ensures
            r@ == self.quote_coin_text(),
    {
        match &self.quote_coin {
            Some(c) => c.as_str(),
            None => "UNKNOWN",
        }
    }

    /// A field-by-field copy of this symbol.
    pub fn duplicate(&self) -> (r: Symbol)
        ensures
            r == *self,
    {
        Symbol {
            symbol: self.symbol.clone(),
            category: clone_opt(&self.category),
            contract_type: clone_opt(&self.contract_type),
            base_coin: clone_opt(&self.base_coin),
            quote_coin: clone_opt(&self.quote_coin),
            launch_time: clone_opt(&self.launch_time),
            delivery_time: clone_opt(&self.delivery_time),
            delivery_fee_rate: clone_opt(&self.delivery_fee_rate),
        }
    }
}

/// Copies of all symbols of a slice, in order.
pub fn copy_symbols(symbols: &[Symbol]) -> (r: Vec<Symbol>)
    ensures
        r@ == symbols@,
{
    let mut r: Vec<Symbol> = Vec::new();
    let mut i: usize = 0;
    while i < symbols.len()
        invariant
            i <= symbols@.len(),
            r@ == symbols@.subrange(0, i as int),
        decreases symbols@.len() - i,
    {
        r.push(symbols[i].duplicate());
        i = i + 1;
    }
    assert(r@ =~= symbols@);
    r
}

} // verus!
