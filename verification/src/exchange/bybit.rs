//! Bybit V5 market API: URLs, response checks and k-line field selection.

use vstd::prelude::*;

use crate::error::CryptoScopeError;
use crate::models::symbol::Symbol;
use crate::text::{concat2, decimal, owned, u64_to_decimal};

verus! {

/// Name under which the Bybit exchange is known.
pub const EXCHANGE_NAME: &'static str = "bybit";

/// Base URL of the Bybit API.
pub const BYBIT_BASE_URL: &'static str = "https://api.bybit.com";

/// Endpoint listing instruments.
pub const INSTRUMENTS_ENDPOINT: &'static str = "/v5/market/instruments-info";

/// Endpoint listing tickers.
pub const TICKERS_ENDPOINT: &'static str = "/v5/market/tickers";

/// Endpoint serving k-lines.
pub const KLINE_ENDPOINT: &'static str = "/v5/market/kline";

/// Column of the open price in a Bybit k-line row.
pub const KLINE_OPEN_IDX: usize = 1;

/// Fewest columns a k-line row must have.
pub const KLINE_MIN_COLUMNS: usize = 6;

/// Most pages fetched when paginating instruments.
pub const MAX_INSTRUMENT_PAGES: u32 = 100;

/// URL of the daily k-line (one row) of `symbol` in `category`.
pub open spec fn kline_url(base_url: Seq<char>, symbol: Seq<char>, category: Seq<char>) -> Seq<char> {
    base_url + "/v5/market/kline"@ + "?category="@ + category + "&symbol="@ + symbol + "&interval=D&limit=1"@
}

/// Build the URL of the daily k-line request.
pub fn build_kline_url(base_url: &str, symbol: &str, category: &str) -> (r: String)
    ensures
        r@ == kline_url(base_url@, symbol@, category@),
{
    let mut url = owned(base_url);
    url.append(KLINE_ENDPOINT);
    url.append("?category=");
    url.append(category);
    url.append("&symbol=");
    url.append(symbol);
    url.append("&interval=D&limit=1");
    proof { reveal_strlit("/v5/market/kline"); }
    url
}

/// URL of one page of instruments; a non-empty cursor selects the page.
pub open spec fn instruments_url(base_url: Seq<char>, category: Seq<char>, cursor: Seq<char>) -> Seq<char> {
    let first = base_url + "/v5/market/instruments-info"@ + "?category="@ + category;
    if cursor.len() == 0 { first } else { first + "&cursor="@ + cursor }
}

/// Build the URL of one page of instruments.
pub fn build_instruments_url(base_url: &str, category: &str, cursor: &str) -> (r: String)
    ensures
        r@ == instruments_url(base_url@, category@, cursor@),
{
    let mut url = owned(base_url);
    url.append(INSTRUMENTS_ENDPOINT);
    url.append("?category=");
    url.append(category);
    if cursor.unicode_len() > 0 {
        url.append("&cursor=");
        url.append(cursor);
    }
    proof { reveal_strlit("/v5/market/instruments-info"); }
    url
}

/// URL of the tickers of a category.
pub open spec fn tickers_url(base_url: Seq<char>, category: Seq<char>) -> Seq<char> {
    base_url + "/v5/market/tickers"@ + "?category="@ + category
}

/// Build the URL of the tickers request.
pub fn build_tickers_url(base_url: &str, category: &str) -> (r: String)
    ensures
        r@ == tickers_url(base_url@, category@),
{
    let mut url = owned(base_url);
    url.append(TICKERS_ENDPOINT);
    url.append("?category=");
    url.append(category);
    proof { reveal_strlit("/v5/market/tickers"); }
    url
}

/// Turn a Bybit return code into a result: 0 is success, anything else an
/// API error carrying the code and message.
pub fn check_api_response(ret_code: i32, ret_msg: &str) -> (r: Result<(), CryptoScopeError>)
    ensures
        ret_code == 0 ==> r is Ok,
        ret_code != 0 ==> (r matches Err(CryptoScopeError::ApiError { code, message }) && code == ret_code && message@ == ret_msg@),
{
    if ret_code != 0 {
        return Err(CryptoScopeError::ApiError { code: ret_code, message: owned(ret_msg) });
    }
    Ok(())
}

/// Message for a k-line row without the requested column.
pub open spec fn too_short_text(idx: nat, len: nat, symbol: Seq<char>) -> Seq<char> {
    "Kline data too short: expected index "@ + decimal(idx) + " but data has "@ + decimal(len)
        + " elements for symbol '"@ + symbol + "'"@
}

/// Message for an absent k-line row.
pub open spec fn no_kline_text(symbol: Seq<char>) -> Seq<char> {
    "No k-line data found for symbol '"@ + symbol + "'"@
}

/// Message for a k-line row with too few columns.
pub open spec fn invalid_kline_text(symbol: Seq<char>) -> Seq<char> {
    "Invalid k-line data format for symbol '"@ + symbol + "'"@
}

/// Message for a k-line column that is not a number.
pub open spec fn unparsable_field_text(field_name: Seq<char>, symbol: Seq<char>) -> Seq<char> {
    "Failed to parse "@ + field_name + " for symbol '"@ + symbol + "'"@
}

/// An API error with code -1 and the given message.
pub open spec fn local_api_error(message: Seq<char>, e: CryptoScopeError) -> bool {
    e matches CryptoScopeError::ApiError { code, message: m } && code == -1 && m@ == message
}

/// The text of column `idx` of a k-line row, or an error naming the row length.
pub fn kline_field_text(data: &Vec<String>, idx: usize, symbol: &str) -> (r: Result<String, CryptoScopeError>)
    ensures
        idx < data@.len() ==> (r matches Ok(t) && t@ == data@[idx as int]@),
        idx >= data@.len() ==> (r matches Err(e) && local_api_error(too_short_text(idx as nat, data@.len(), symbol@), e)),
{
    if idx < data.len() {
        Ok(data[idx].clone())
    } else {
        let mut m = owned("Kline data too short: expected index ");
        let i = u64_to_decimal(idx as u64);
        m.append(i.as_str());
        m.append(" but data has ");
        let l = u64_to_decimal(data.len() as u64);
        m.append(l.as_str());
        m.append(" elements for symbol '");
        m.append(symbol);
        m.append("'");
        Err(CryptoScopeError::ApiError { code: -1, message: m })
    }
}

/// The open-price text of the first k-line row.
///
/// Errors when there is no row, or when the row has fewer than six columns.
pub fn kline_open_text(data: &Vec<Vec<String>>, symbol: &str) -> (r: Result<String, CryptoScopeError>)
    ensures
        data@.len() == 0 ==> (r matches Err(e) && local_api_error(no_kline_text(symbol@), e)),
        data@.len() > 0 && data@[0]@.len() < 6 ==> (r matches Err(e) && local_api_error(invalid_kline_text(symbol@), e)),
        data@.len() > 0 && data@[0]@.len() >= 6 ==> (r matches Ok(t) && t@ == data@[0]@[1]@),
{
    if data.len() == 0 {
        let mut m = owned("No k-line data found for symbol '");
        m.append(symbol);
        m.append("'");
        return Err(CryptoScopeError::ApiError { code: -1, message: m });
    }
    let row = &data[0];
    if row.len() < KLINE_MIN_COLUMNS {
        let mut m = owned("Invalid k-line data format for symbol '");
        m.append(symbol);
        m.append("'");
        return Err(CryptoScopeError::ApiError { code: -1, message: m });
    }
    kline_field_text(row, KLINE_OPEN_IDX, symbol)
}

/// The error raised when a k-line column cannot be parsed as a number.
pub fn unparsable_field_error(field_name: &str, symbol: &str) -> (e: CryptoScopeError)
    ensures
        local_api_error(unparsable_field_text(field_name@, symbol@), e),
{
    let mut m = concat2("Failed to parse ", field_name);
    m.append(" for symbol '");
    m.append(symbol);
    m.append("'");
    CryptoScopeError::ApiError { code: -1, message: m }
}

/// The cursor to fetch after a page, or `None` to stop paginating.
///
/// Pagination continues only with a non-empty cursor and while fewer than
/// `MAX_INSTRUMENT_PAGES` pages have been fetched.
pub fn next_page_cursor(pages_fetched: u32, next_cursor: Option<String>) -> (r: Option<String>)
    ensures
        r is Some <==> (next_cursor matches Some(c) && c@.len() > 0 && pages_fetched < 100),
        r matches Some(c) ==> next_cursor == Some(c),
{
    match next_cursor {
        Some(c) => {
            if c.as_str().unicode_len() > 0 && pages_fetched < MAX_INSTRUMENT_PAGES {
                Some(c)
            } else {
                None
            }
        },
        None => None,
    }
}

/// Give every symbol without a category the category it was fetched under.
pub fn assign_missing_category(symbols: &mut Vec<Symbol>, category: &str)
    ensures
        final(symbols)@.len() == old(symbols)@.len(),
        forall|i: int| 0 <= i < old(symbols)@.len() ==> {
            let before = #[trigger] old(symbols)@[i];
            let after = final(symbols)@[i];
            &&& (before.category is Some ==> after.category == before.category)
            &&& (before.category is None ==> (after.category matches Some(c) && c@ == category@))
            &&& after.symbol == before.symbol
            &&& after.contract_type == before.contract_type
            &&& after.base_coin == before.base_coin
            &&& after.quote_coin == before.quote_coin
            &&& after.launch_time == before.launch_time
            &&& after.delivery_time == before.delivery_time
            &&& after.delivery_fee_rate == before.delivery_fee_rate
        },
{
    let n = symbols.len();
    let mut i: usize = 0;
    while i < n
        invariant
            n == symbols@.len(),
            n == old(symbols)@.len(),
            i <= n,
            forall|j: int| i <= j < n ==> symbols@[j] == old(symbols)@[j],
            forall|j: int| 0 <= j < i ==> {
                let before = #[trigger] old(symbols)@[j];
                let after = symbols@[j];
                &&& (before.category is Some ==> after.category == before.category)
                &&& (before.category is None ==> (after.category matches Some(c) && c@ == category@))
                &&& after.symbol == before.symbol
                &&& after.contract_type == before.contract_type
                &&& after.base_coin == before.base_coin
                &&& after.quote_coin == before.quote_coin
                &&& after.launch_time == before.launch_time
                &&& after.delivery_time == before.delivery_time
                &&& after.delivery_fee_rate == before.delivery_fee_rate
            },
        decreases n - i,
    {
        if symbols[i].category.is_none() {
            let mut s = symbols[i].duplicate();
            s.category = Some(owned(category));
            symbols.set(i, s);
        }
        i = i + 1;
    }
}

} // verus!
