//! Exchange integrations: Bybit request building and response checks, and
//! the choice of exchange client by name.

pub mod bybit;
pub mod factory;

pub use factory::{get_supported_exchanges, select_exchange, ExchangeKind};
