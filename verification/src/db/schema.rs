//! Versioned schema of the open-price cache and the migrations between
//! versions.
//!
//! The statements are executed by the caller against its connection; this
//! module decides which migrations a database at a given version needs.

use vstd::prelude::*;

use crate::error::CryptoScopeError;
use crate::text::{concat3, i64_to_decimal, signed_decimal};

verus! {

/// Current schema version. Increment when making breaking changes.
pub const CURRENT_SCHEMA_VERSION: i64 = 1;

/// Whether the version table exists.
pub const SQL_CHECK_SCHEMA_TABLE: &'static str =
    "SELECT EXISTS(SELECT 1 FROM sqlite_master WHERE type='table' AND name='schema_version')";

/// Highest recorded version.
pub const SQL_MAX_SCHEMA_VERSION: &'static str = "SELECT MAX(version) FROM schema_version";

/// The version table.
pub const SQL_CREATE_SCHEMA_VERSION: &'static str = "CREATE TABLE IF NOT EXISTS schema_version (
        version INTEGER PRIMARY KEY,
        applied_at INTEGER NOT NULL
    )";

/// The open-price table (version 1).
pub const SQL_CREATE_DAILY_OPEN_PRICES: &'static str = "CREATE TABLE IF NOT EXISTS daily_open_prices (
        symbol TEXT PRIMARY KEY,
        open_price REAL NOT NULL,
        fetch_date TEXT NOT NULL,
        fetch_timestamp INTEGER NOT NULL,
        source TEXT NOT NULL
    )";

/// The index on fetch dates (version 1).
pub const SQL_IDX_FETCH_DATE: &'static str =
    "CREATE INDEX IF NOT EXISTS idx_fetch_date ON daily_open_prices(fetch_date)";

/// Records an applied version.
pub const SQL_RECORD_VERSION: &'static str = "INSERT OR REPLACE INTO schema_version (version, applied_at) VALUES (?1, strftime('%s', 'now'))";

/// The message for a version that no migration knows.
pub open spec fn unknown_version_message(version: int) -> Seq<char> {
    "Unknown schema version: "@ + signed_decimal(version) + ". Please update CryptoScope."@
}

/// The message for a database written by a newer release.
pub open spec fn newer_version_message(version: int) -> Seq<char> {
    "Database schema version ("@ + signed_decimal(version)
        + ") is newer than supported (1). Please update CryptoScope to a newer version."@
}

/// The migrations a database at `current_version` needs, in the order they
/// are applied: every version after `current_version` up to
/// `CURRENT_SCHEMA_VERSION`. A database newer than this release is refused,
/// and so is one whose first pending version no migration knows.
pub fn migration_plan(current_version: i64) -> (r: Result<Vec<i64>, CryptoScopeError>)
    ensures
        current_version == 0 ==> (r matches Ok(v) && v@ == seq![1i64]),
        current_version == CURRENT_SCHEMA_VERSION ==> (r matches Ok(v) && v@.len() == 0),
        current_version < 0 ==> (r matches Err(CryptoScopeError::DbInternal(m))
            && m@ == unknown_version_message(current_version + 1)),
        current_version > CURRENT_SCHEMA_VERSION ==> (r matches Err(CryptoScopeError::DbInternal(m))
            && m@ == newer_version_message(current_version as int)),
{
    if current_version < 0 {
        let first = current_version + 1;
        let number = i64_to_decimal(first);
        let m = concat3("Unknown schema version: ", number.as_str(), ". Please update CryptoScope.");
        proof {
            reveal_strlit("Unknown schema version: ");
            reveal_strlit(". Please update CryptoScope.");
        }
        Err(CryptoScopeError::DbInternal(m))
    } else if current_version == 0 {
        let mut v: Vec<i64> = Vec::new();
        v.push(1);
        Ok(v)
    } else if current_version == CURRENT_SCHEMA_VERSION {
        Ok(Vec::new())
    } else {
        let number = i64_to_decimal(current_version);
        let m = concat3(
            "Database schema version (",
            number.as_str(),
            ") is newer than supported (1). Please update CryptoScope to a newer version.",
        );
        Err(CryptoScopeError::DbInternal(m))
    }
}

/// The statements that migrate a database to `version`, if a migration to
/// that version exists.
pub fn migration_batch(version: i64) -> (r: Option<String>)
    ensures
        version == 1 ==> (r matches Some(b)
            && b@ == SQL_CREATE_DAILY_OPEN_PRICES@ + "; "@ + SQL_IDX_FETCH_DATE@),
        version != 1 ==> r is None,
{
    if version == 1 {
        Some(concat3(SQL_CREATE_DAILY_OPEN_PRICES, "; ", SQL_IDX_FETCH_DATE))
    } else {
        None
    }
}

} // verus!
