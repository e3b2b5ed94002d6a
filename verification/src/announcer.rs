//! The announcement pipeline's commit decision. The transport send and
//! the liveness probe happen outside this crate; this module decides,
//! from the probe's outcome, whether the item is committed to the
//! Seen-Item Store.
use vstd::prelude::*;
use crate::item::ApiItem;
use crate::store::SeenStore;

verus! {

/// Why an announcement was not confirmed.
pub enum AnnounceError {
    /// The liveness probe right after the send failed: the message may or
    /// may not have been delivered, and the item is not recorded as seen.
    ConnectionLost,
}

/// Commits `item` as announced exactly when the liveness probe performed
/// right after the send succeeded. On a failed probe the store is left
/// untouched, so the item stays eligible and may be announced again:
/// at-least-once on failure, at-most-once on confirmed success.
pub fn record_send_outcome(store: &mut SeenStore, item: &ApiItem, connection_alive: bool) -> (r:
    Result<(), AnnounceError>)
    requires
        old(store).wf(),
    ensures
        final(store).wf(),
        connection_alive ==> r is Ok && final(store)@ == old(store)@.insert(
            item.id@,
            item.attributes.bumped_at@,
        ),
        !connection_alive ==> r is Err && final(store)@ == old(store)@,
        !connection_alive && !old(store)@.contains_key(item.id@)
            ==> !final(store)@.contains_key(item.id@),
    {
    if connection_alive {
        store.mark_as_announced(item);
        Ok(())
    } else {
        Err(AnnounceError::ConnectionLost)
    }
}

} // verus!
