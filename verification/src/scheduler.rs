//! The poll-timer rate limit: each fetch-timer tick asks whether a fetch
//! may run, and the time of the last attempted fetch is recorded exactly
//! when one runs. Timestamps are whole time units (for example seconds)
//! from a monotonic clock owned by the loop outside this crate.
use vstd::prelude::*;

verus! {

/// Tracks when the feed was last fetched and enforces the minimum
/// interval between fetches.
pub struct FetchLimiter {
    /// The minimum number of time units between two fetch attempts.
    pub min_interval: u64,
    /// When a fetch was last attempted; None before the first one.
    pub last_fetch: Option<u64>,
}

impl FetchLimiter {
    /// Whether a tick at time `now` may fetch: always before the first
    /// fetch, afterwards only once the minimum interval has elapsed.
    pub open spec fn allows(self, now: u64) -> bool {
        match self.last_fetch {
            Option::None => true,
            Option::Some(t) => now >= t + self.min_interval,
        }
    }

    /// A fresh limiter: the first tick always fetches.
    pub fn new(min_interval: u64) -> (s: Self)
        ensures
            s.min_interval == min_interval,
            s.last_fetch is None,
            forall|now: u64| s.allows(now),
    {
        FetchLimiter { min_interval, last_fetch: None }
    }

    /// One poll tick at time `now`. Reports whether to fetch, and records
    /// `now` as the last fetch time exactly when a fetch is to be
    /// attempted — whatever the fetch later returns.
    pub fn poll_tick(&mut self, now: u64) -> (fetch: bool)
        ensures
            fetch == old(self).allows(now),
            final(self).min_interval == old(self).min_interval,
            fetch ==> final(self).last_fetch == Some(now),
            !fetch ==> *final(self) == *old(self),
    {
        let do_fetch = match self.last_fetch {
            None => true,
            Some(t) => now >= t && now - t >= self.min_interval,
        };
        if do_fetch {
            self.last_fetch = Some(now);
        }
        do_fetch
    }
}

/// The rate limit itself: once a fetch ran at time `t1`, a tick earlier
/// than `t1` plus the minimum interval does not fetch again, and one at
/// or after that bound does.
pub proof fn lemma_rate_limit(s: FetchLimiter, t1: u64, t2: u64)
    requires
        s.last_fetch == Some(t1),
    ensures
        t2 < t1 + s.min_interval ==> !s.allows(t2),
        t2 >= t1 + s.min_interval ==> s.allows(t2),
{
}

} // verus!
