//! The price screener: pairing open prices with current tickers, the
//! policies of the open-price fetch, and the table of results.

pub mod calculator;
pub mod fetcher;
pub mod output;
