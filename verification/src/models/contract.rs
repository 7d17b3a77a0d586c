//! Kinds of contract of screened instruments.

use vstd::prelude::*;

use crate::text::str_eq;

verus! {

/// Kind of contract of a screened instrument, from its category.
#[derive(Debug, Clone, Copy, PartialEq, Eq, Structural)]
pub enum ContractType {
    LinearPerpetual,
    LinearFutures,
    InversePerpetual,
    InverseFutures,
    Spot,
    Unknown,
}

/// The contract kind of a category: `linear` and `inverse` categories
/// hold perpetuals, `spot` is spot, anything else is unknown.
pub open spec fn contract_type_of(category: Seq<char>) -> ContractType {
    if category == "linear"@ {
        ContractType::LinearPerpetual
    } else if category == "inverse"@ {
        ContractType::InversePerpetual
    } else if category == "spot"@ {
        ContractType::Spot
    } else {
        ContractType::Unknown
    }
}

impl ContractType {
    /// The name of the contract kind.
    pub open spec fn label_text(self) -> Seq<char> {
        match self {
            ContractType::LinearPerpetual => "LinearPerpetual"@,
            ContractType::LinearFutures => "LinearFutures"@,
            ContractType::InversePerpetual => "InversePerpetual"@,
            ContractType::InverseFutures => "InverseFutures"@,
            ContractType::Spot => "Spot"@,
            ContractType::Unknown => "Unknown"@,
        }
    }

    /// Whether the kind is a derivative (a perpetual or a futures contract).
    pub open spec fn is_derivative_kind(self) -> bool {
        match self {
            ContractType::Spot | ContractType::Unknown => false,
            _ => true,
        }
    }

    /// The contract kind of a category.
    pub fn from_category(category: &str) -> (r: Self)
        ensures
            r == contract_type_of(category@),
    {
        if str_eq(category, "linear") {
            ContractType::LinearPerpetual
        } else if str_eq(category, "inverse") {
            ContractType::InversePerpetual
        } else if str_eq(category, "spot") {
            ContractType::Spot
        } else {
            ContractType::Unknown
        }
    }

    /// The name of the contract kind.
    pub fn label(&self) -> (r: &'static str)
        ensures
            r@ == self.label_text(),
    {
        match self {
            ContractType::LinearPerpetual => "LinearPerpetual",
            ContractType::LinearFutures => "LinearFutures",
            ContractType::InversePerpetual => "InversePerpetual",
            ContractType::InverseFutures => "InverseFutures",
            ContractType::Spot => "Spot",
            ContractType::Unknown => "Unknown",
        }
    }

    /// Returns true if this is a derivative contract (perpetual or futures).
    /// Spot and other non-derivative contract types return false.
    pub fn is_derivative(&self) -> (r: bool)
        ensures
            r == self.is_derivative_kind(),
    {
        match self {
            ContractType::Spot | ContractType::Unknown => false,
            _ => true,
        }
    }
}

} // verus!
