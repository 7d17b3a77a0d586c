//! Responses of the Bybit market API.

use vstd::prelude::*;

use super::symbol::Symbol;
use crate::text::{i64_to_decimal, signed_decimal};

verus! {

/// The JSON value type of `serde_json`, carried through unread.
#[verifier::external_type_specification]
#[verifier::external_body]
pub struct ExJsonValue(serde_json::Value);

/// Bybit API response structure for the instruments-info endpoint.
#[derive(Debug)]
pub struct BybitApiResponse {
    pub ret_code: i32,
    pub ret_msg: String,
    pub result: BybitInstrumentsResult,
    pub ret_ext_info: serde_json::Value,
    pub time: i64,
}

/// Result section containing the instruments list and pagination info.
///
/// This struct wraps the list of symbols returned by the Bybit API
/// along with category information and pagination cursor for fetching
/// additional pages of results.
#[derive(Debug, Clone)]
pub struct BybitInstrumentsResult {
    /// The category of instruments (e.g., "linear", "inverse")
    pub category: String,
    /// List of trading symbols/instruments in this category
    pub list: Vec<Symbol>,
    /// Cursor for fetching the next page of results (if available)
    pub next_page_cursor: Option<String>,
}

/// The text reported for a failed request: the message and the code.
pub open spec fn api_error_text(ret_msg: Seq<char>, ret_code: i32) -> Seq<char> {
    ret_msg + " (code: "@ + signed_decimal(ret_code as int) + ")"@
}

impl BybitApiResponse {
    /// Check if API call was successful.
    ///
    /// Returns `true` if the response code is 0, indicating success.
    pub fn is_success(&self) -> (r: bool)
        ensures
            r == (self.ret_code == 0),
    {
        self.ret_code == 0
    }

    /// Get error message if request failed.
    ///
    /// Returns `None` if the request was successful, otherwise returns
    /// a formatted error message with the response code.
    pub fn error_message(&self) -> (r: Option<String>)
        ensures
            self.ret_code == 0 ==> r is None,
            self.ret_code != 0 ==> (r matches Some(m) && m@ == api_error_text(self.ret_msg@, self.ret_code)),
    {
        if self.is_success() {
            None
        } else {
            let mut m = self.ret_msg.clone();
            m.append(" (code: ");
            let code = i64_to_decimal(self.ret_code as i64);
            m.append(code.as_str());
            m.append(")");
            Some(m)
        }
    }
}

/// Ticker endpoint response structure.
#[derive(Debug, Clone)]
pub struct TickerApiResponse {
    pub ret_code: i32,
    pub ret_msg: String,
    pub result: TickerApiResult,
}

/// Result section of the ticker API response.
///
/// Contains the category and list of raw ticker data returned by
/// the Bybit `/v5/market/tickers` endpoint.
#[derive(Debug, Clone)]
pub struct TickerApiResult {
    /// The category of instruments (e.g., "linear", "inverse").
    pub category: String,
    /// List of raw ticker responses with string-encoded numeric fields.
    pub list: Vec<TickerRawResponse>,
}

/// Raw ticker response with string fields (the API returns strings).
///
/// Numeric fields are stored as strings by the Bybit API and must be
/// parsed separately.
#[derive(Debug, Clone)]
pub struct TickerRawResponse {
    /// The symbol/ticker name (e.g., "BTCUSDT").
    pub symbol: String,
    /// Last traded price as a string.
    pub last_price: String,
    /// Price 24 hours ago as a string.
    pub prev_price_24h: String,
    /// Price change percentage over 24h as a string.
    pub price_24h_pcnt: String,
    /// Highest price in the last 24h as a string.
    pub high_price_24h: String,
    /// Lowest price in the last 24h as a string.
    pub low_price_24h: String,
    /// Trading volume in the last 24h as a string.
    pub volume_24h: String,
}

/// K-line endpoint response structure.
#[derive(Debug, Clone)]
pub struct KlineApiResponse {
    pub ret_code: i32,
    pub ret_msg: String,
    pub result: KlineApiResult,
}

/// Result section of the K-line API response.
///
/// Contains the symbol, category, and list of K-line data arrays returned
/// by the Bybit `/v5/market/kline` endpoint.
#[derive(Debug, Clone)]
pub struct KlineApiResult {
    /// The symbol identifier.
    pub symbol: String,
    /// The category of instruments (e.g., "linear", "inverse").
    pub category: String,
    /// List of K-line data arrays. Each inner array contains:
    /// [timestamp, open, high, low, close, volume, turnover].
    pub list: Vec<Vec<String>>,
}

} // verus!
