//! Screener endpoint helpers: categories to scan and the screener mode.

use vstd::prelude::*;

use super::error::AppError;
use super::types::ScreenerModeQuery;
use crate::cli::ScreenerMode;
use crate::text::owned;

verus! {

/// Resolve categories to scan from the query parameter, defaulting to
/// linear and inverse perpetual contracts.
pub fn resolve_categories(category: Option<&str>) -> (r: Vec<String>)
    ensures
        category matches Some(c) ==> (r@.len() == 1 && r@[0]@ == c@),
        category is None ==> (r@.len() == 2 && r@[0]@ == "linear"@ && r@[1]@ == "inverse"@),
{
    let mut r: Vec<String> = Vec::new();
    match category {
        Some(cat) => {
            r.push(owned(cat));
        },
        None => {
            r.push(owned("linear"));
            r.push(owned("inverse"));
        },
    }
    r
}

/// Convert the requested mode to the screener mode; mark-price mode is not
/// implemented.
pub fn resolve_screener_mode(mode: ScreenerModeQuery) -> (r: Result<ScreenerMode, AppError>)
    ensures
        mode == ScreenerModeQuery::Kline ==> r == Ok::<ScreenerMode, AppError>(ScreenerMode::Kline),
        mode == ScreenerModeQuery::Mark ==> (r matches Err(AppError::HttpError(s, m)) && s == 501
            && m@ == "Mark price mode is not yet implemented. Use mode=kline instead."@),
{
    match mode {
        ScreenerModeQuery::Kline => Ok(ScreenerMode::Kline),
        ScreenerModeQuery::Mark => Err(AppError::not_implemented(
            owned("Mark price mode is not yet implemented. Use mode=kline instead."),
        )),
    }
}

} // verus!
