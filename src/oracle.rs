use vstd::prelude::*;

use crate::error::DefiError;

verus! {

/// A price with 6 decimals and the time, in seconds, it was last updated.
#[derive(Debug, Clone, Copy, PartialEq, Eq)]
pub struct OraclePrice {
    pub price_e6: u64,
    pub last_update_ts: u64,
}

/// A price updated at `last_update_ts` is usable at `now`: its age, counted as
/// zero for an update stamped in the future, is at most `max_age`.
pub open spec fn is_fresh(now: u64, last_update_ts: u64, max_age: u64) -> bool {
    now <= last_update_ts || now - last_update_ts <= max_age
}

/// What a freshness check at `now` returns.
pub open spec fn freshness_outcome(now: u64, last_update_ts: u64, max_age: u64) -> Result<
    (),
    DefiError,
> {
    if is_fresh(now, last_update_ts, max_age) {
        Ok(())
    } else {
        Err(DefiError::OracleStale)
    }
}

/// The current Unix time in seconds.
///
/// Relies on std's `SystemTime::elapsed`, taken on `UNIX_EPOCH`, for the
/// system clock; a clock set before the epoch reads as zero. Nothing is known
/// of the value returned.
#[verifier::external_body]
pub fn now_ts() -> u64 {
    match std::time::UNIX_EPOCH.elapsed() {
        Ok(d) => d.as_secs(),
        Err(_) => 0,
    }
}

impl OraclePrice {
    /// Succeeds when the price is fresh at `now` within `max_age` seconds,
    /// and fails with `OracleStale` otherwise.
    pub fn assert_fresh_at(&self, max_age: u64, now: u64) -> (r: Result<(), DefiError>)
        ensures
            r == freshness_outcome(now, self.last_update_ts, max_age),
    {
        if now.saturating_sub(self.last_update_ts) > max_age {
            return Err(DefiError::OracleStale);
        }
        Ok(())
    }

    /// Checks freshness against the system clock; see [`OraclePrice::assert_fresh_at`].
    pub fn assert_fresh(&self, max_age: u64) -> (r: Result<(), DefiError>)
        ensures
            exists|now: u64| r == #[trigger] freshness_outcome(now, self.last_update_ts, max_age),
    {
        self.assert_fresh_at(max_age, now_ts())
    }
}

} // verus!
