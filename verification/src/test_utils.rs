//! Sample values for examples and tests.

use vstd::prelude::*;

use crate::models::symbol::Symbol;
use crate::text::{owned, str_eq};

verus! {

/// A symbol in the given category: a linear one has contract type
/// "Linear", any other "InversePerpetual"; base coin BTC, quote coin USDT,
/// and no launch or delivery data.
pub fn create_test_symbol(symbol: &str, category: &str) -> (r: Symbol)
    ensures
        r.symbol@ == symbol@,
        r.category == Some(r.category->0) && r.category->0@ == category@,
        r.contract_type == Some(r.contract_type->0),
        category@ == "linear"@ ==> r.contract_type->0@ == "Linear"@,
        category@ != "linear"@ ==> r.contract_type->0@ == "InversePerpetual"@,
        r.base_coin == Some(r.base_coin->0) && r.base_coin->0@ == "BTC"@,
        r.quote_coin == Some(r.quote_coin->0) && r.quote_coin->0@ == "USDT"@,
        r.launch_time is None,
        r.delivery_time is None,
        r.delivery_fee_rate is None,
{
    let contract_type = if str_eq(category, "linear") {
        owned("Linear")
    } else {
        owned("InversePerpetual")
    };
    Symbol {
        symbol: owned(symbol),
        category: Some(owned(category)),
        contract_type: Some(contract_type),
        base_coin: Some(owned("BTC")),
        quote_coin: Some(owned("USDT")),
        launch_time: None,
        delivery_time: None,
        delivery_fee_rate: None,
    }
}

} // verus!
