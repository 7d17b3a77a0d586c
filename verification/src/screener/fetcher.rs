//! Policies of the open-price fetch: when the cache is stale, how failed
//! requests are retried, and the tally kept while daily k-lines arrive.

use vstd::prelude::*;
use vstd::arithmetic::power2::{lemma2_to64, pow2};

use crate::text::str_eq;

verus! {

/// Maximum retry attempts for rate-limited requests.
pub const MAX_KLINE_RETRIES: u32 = 3;

/// Initial backoff delay for retries (doubles each attempt).
pub const KLINE_RETRY_BASE_DELAY_MS: u64 = 1000;

/// Progress is reported after every this many processed symbols.
pub const PROGRESS_INTERVAL: usize = 50;

/// How daily k-lines are fetched: how many requests run at once, how long
/// one symbol's fetch (with its retries) may take, and the pause before
/// each request.
#[derive(Debug, Clone, Copy, PartialEq, Eq)]
pub struct KlineFetchSettings {
    /// Requests in flight at once.
    pub max_concurrent: usize,
    /// Time allowed for one symbol, in seconds.
    pub timeout_secs: u64,
    /// Pause before each symbol's first request, in milliseconds.
    pub per_request_delay_ms: u64,
}

impl KlineFetchSettings {
    /// The settings of the service (API and MCP): 5 requests at once, 60
    /// seconds per symbol, no pause.
    pub fn service() -> (r: Self)
        ensures
            r.max_concurrent == 5,
            r.timeout_secs == 60,
            r.per_request_delay_ms == 0,
    {
        KlineFetchSettings { max_concurrent: 5, timeout_secs: 60, per_request_delay_ms: 0 }
    }

    /// The settings of the command-line screener, which stays within
    /// Bybit's 120 requests a minute: 2 requests at once, 30 seconds per
    /// symbol, 500 ms before each request.
    pub fn command_line() -> (r: Self)
        ensures
            r.max_concurrent == 2,
            r.timeout_secs == 30,
            r.per_request_delay_ms == 500,
    {
        KlineFetchSettings { max_concurrent: 2, timeout_secs: 30, per_request_delay_ms: 500 }
    }
}

/// Whether open prices must be fetched: nothing is stored yet, or what is
/// stored was fetched on another date than `today`.
pub fn should_fetch_open_prices(stored_date: Option<&str>, today: &str) -> (r: bool)
    ensures
        r == match stored_date {
            None => true,
            Some(d) => d@ != today@,
        },
{
    match stored_date {
        None => true,
        Some(date) => !str_eq(date, today),
    }
}

/// The wait before the next attempt after attempt number `attempt`
/// (counted from 0) failed: `1000 * 2^attempt` milliseconds while retries
/// remain, and none once the last retry has failed.
pub open spec fn retry_delay(attempt: nat) -> Option<nat> {
    if attempt < MAX_KLINE_RETRIES {
        Some((KLINE_RETRY_BASE_DELAY_MS as nat) * pow2(attempt))
    } else {
        None
    }
}

/// Exponential backoff: the delay in milliseconds to wait after failed
/// attempt number `attempt` (counted from 0), or `None` when all retries
/// are exhausted and the last error is returned.
pub fn retry_delay_ms(attempt: u32) -> (r: Option<u64>)
    ensures
        match retry_delay(attempt as nat) {
            Some(d) => r == Some(d as u64),
            None => r is None,
        },
{
    proof {
        lemma2_to64();
    }
    if attempt < MAX_KLINE_RETRIES {
        let factor: u64 = if attempt == 0 {
            1
        } else if attempt == 1 {
            2
        } else {
            4
        };
        Some(KLINE_RETRY_BASE_DELAY_MS * factor)
    } else {
        None
    }
}

/// Law: an operation is tried at most `MAX_KLINE_RETRIES + 1` times; the
/// first wait is the base delay and each further wait doubles the one
/// before.
pub proof fn law_retry_backoff(attempt: nat)
    ensures
        retry_delay(attempt) is Some <==> attempt < MAX_KLINE_RETRIES,
        retry_delay(0) == Some(KLINE_RETRY_BASE_DELAY_MS as nat),
        attempt + 1 < MAX_KLINE_RETRIES ==> retry_delay(attempt + 1)->0 == 2 * retry_delay(attempt)->0,
{
    lemma2_to64();
    if attempt + 1 < MAX_KLINE_RETRIES {
        vstd::arithmetic::power2::lemma_pow2_unfold(attempt + 1);
        let b = KLINE_RETRY_BASE_DELAY_MS as nat;
        let p = pow2(attempt);
        assert(b * (2 * p) == 2 * (b * p)) by (nonlinear_arith);
    }
}

/// Whether failures exceed a tenth of all requests (the fetch then warns
/// about a high failure rate).
pub fn is_high_failure_rate(failed: usize, total: usize) -> (r: bool)
    ensures
        r == (total > 0 && 10 * failed > total),
{
    total > 0 && failed > total / 10
}

/// Counts kept while the results of the daily k-line requests arrive.
#[derive(Debug, Clone, Copy, PartialEq, Eq, Structural)]
pub struct KlineFetchTally {
    /// Number of symbols whose k-line was requested
    pub total: usize,
    /// Results received so far
    pub processed: usize,
    /// Results that carried an open price
    pub succeeded: usize,
    /// Results that failed (error or timeout)
    pub failed: usize,
}

impl KlineFetchTally {
    /// Every received result is either a success or a failure, and no more
    /// results arrive than requests were made.
    pub open spec fn well_formed(self) -> bool {
        &&& self.processed == self.succeeded + self.failed
        &&& self.processed <= self.total
    }

    /// A tally for `total` requests with nothing received yet.
    pub fn new(total: usize) -> (r: Self)
        ensures
            r.well_formed(),
            r == (KlineFetchTally { total, processed: 0, succeeded: 0, failed: 0 }),
    {
        KlineFetchTally { total, processed: 0, succeeded: 0, failed: 0 }
    }

    /// Records one received result; returns whether progress is to be
    /// reported (after every `PROGRESS_INTERVAL` results).
    pub fn record(&mut self, succeeded: bool) -> (report: bool)
        requires
            old(self).well_formed(),
            old(self).processed < old(self).total,
        ensures
            final(self).well_formed(),
            final(self).total == old(self).total,
            final(self).processed == old(self).processed + 1,
            final(self).succeeded == old(self).succeeded + (if succeeded { 1int } else { 0int }),
            final(self).failed == old(self).failed + (if succeeded { 0int } else { 1int }),
            report == (final(self).processed % PROGRESS_INTERVAL == 0),
    {
        if succeeded {
            self.succeeded = self.succeeded + 1;
        } else {
            self.failed = self.failed + 1;
        }
        self.processed = self.processed + 1;
        self.processed % PROGRESS_INTERVAL == 0
    }

    /// Whether all requested results have been received.
    pub fn is_complete(&self) -> (r: bool)
        ensures
            r == (self.processed == self.total),
    {
        self.processed == self.total
    }

    /// Whether the failures warrant the high-failure-rate warning.
    pub fn has_high_failure_rate(&self) -> (r: bool)
        ensures
            r == (self.total > 0 && 10 * self.failed > self.total),
    {
        is_high_failure_rate(self.failed, self.total)
    }
}

/// Law: once every requested result has been recorded, successes and
/// failures together account for all requests.
pub proof fn law_tally_accounts_for_all(t: KlineFetchTally)
    requires
        t.well_formed(),
        t.processed == t.total,
    ensures
        t.succeeded + t.failed == t.total,
{
}

} // verus!
