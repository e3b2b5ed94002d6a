//! Verified core of a feed-to-chat announcer: a deduplicating seen-item
//! store, deterministic message formatting, the session handshake state
//! machine, and the fetch rate limiter. Network and file transport live
//! outside this crate and hand plain values in and out.
use vstd::prelude::*;

pub mod announcer;
pub mod config;
pub mod item;
pub mod format;
pub mod scheduler;
pub mod session;
pub mod store;

verus! {

/// A record of one announced item: its stable id together with the
/// freshness marker it carried when it was announced.
pub struct SeenItem {
    pub id: String,
    pub bumped_at: String,
}

impl Clone for SeenItem {
    fn clone(&self) -> (r: Self)
        ensures
            r == *self,
    {
        SeenItem { id: self.id.clone(), bumped_at: self.bumped_at.clone() }
    }
}

} // verus!
