//! Data models for exchange instruments, statistics and API payloads.

pub mod contract;
pub mod response;
pub mod statistics;
pub mod symbol;

pub use contract::ContractType;
pub use response::BybitApiResponse;
pub use statistics::Statistics;
pub use symbol::Symbol;
