use irc_announcer::announcer::{record_send_outcome, AnnounceError};
use irc_announcer::item::{ApiItem, Attributes};
use irc_announcer::store::SeenStore;
use irc_announcer::SeenItem;

fn item(id: &str, bumped_at: &str) -> ApiItem {
    ApiItem {
        id: id.to_string(),
        attributes: Attributes {
            category: "Movies".to_string(),
            kind: "Encode".to_string(),
            name: "Some Name".to_string(),
            resolution: Some("1080p".to_string()),
            freeleech: "100%".to_string(),
            internal: 0,
            double_upload: false,
            size: 1073741824,
            uploader: "someone".to_string(),
            download_link: "https://example.org/x/torrent/123.abc".to_string(),
            bumped_at: bumped_at.to_string(),
        },
    }
}

#[test]
fn never_seen_item_is_announced() {
    let mut store = SeenStore::new();
    let it = item("17", "2024-01-01T00:00:00Z");
    assert!(store.should_announce(&it));
    // no commit happened yet, so the pair is still absent
    assert!(!store.contains_exact(&it.id, &it.attributes.bumped_at));
}

#[test]
fn committed_pair_is_not_announced_again() {
    let mut store = SeenStore::new();
    let it = item("17", "2024-01-01T00:00:00Z");
    assert!(store.should_announce(&it));
    store.mark_as_announced(&it);
    assert!(store.contains_exact(&it.id, &it.attributes.bumped_at));
    assert!(!store.should_announce(&it));
    assert!(!store.should_announce(&it));
}

#[test]
fn new_marker_supersedes_old_record() {
    let mut store = SeenStore::new();
    let old_item = item("17", "2024-01-01T00:00:00Z");
    store.mark_as_announced(&old_item);
    let bumped = item("17", "2024-02-02T00:00:00Z");
    // the item changed: it is eligible again
    assert!(store.should_announce(&bumped));
    store.mark_as_announced(&bumped);
    // exactly one record for that id, with the new marker
    assert!(!store.contains_exact(&old_item.id, &old_item.attributes.bumped_at));
    assert!(store.contains_exact(&bumped.id, &bumped.attributes.bumped_at));
    assert_eq!(store.to_records().len(), 1);
}

#[test]
fn record_round_trip_is_equivalent() {
    let mut store = SeenStore::new();
    store.mark_as_announced(&item("1", "a"));
    store.mark_as_announced(&item("2", "b"));
    store.mark_as_announced(&item("3", "c"));
    let records = store.to_records();
    assert_eq!(records.len(), 3);
    let reloaded = SeenStore::from_records(&records);
    assert!(reloaded.contains_exact(&"1".to_string(), &"a".to_string()));
    assert!(reloaded.contains_exact(&"2".to_string(), &"b".to_string()));
    assert!(reloaded.contains_exact(&"3".to_string(), &"c".to_string()));
    let again = store.reload_round_trip();
    assert!(again.contains_exact(&"2".to_string(), &"b".to_string()));
    assert!(!again.contains_exact(&"2".to_string(), &"z".to_string()));
}

#[test]
fn from_records_keeps_last_record_per_id() {
    let records = vec![
        SeenItem { id: "7".to_string(), bumped_at: "old".to_string() },
        SeenItem { id: "7".to_string(), bumped_at: "new".to_string() },
    ];
    let store = SeenStore::from_records(&records);
    assert!(!store.contains_exact(&"7".to_string(), &"old".to_string()));
    assert!(store.contains_exact(&"7".to_string(), &"new".to_string()));
    assert_eq!(store.to_records().len(), 1);
}

#[test]
fn failed_probe_leaves_item_unseen() {
    let mut store = SeenStore::new();
    let it = item("42", "2024-03-03T00:00:00Z");
    assert!(store.should_announce(&it));
    let r = record_send_outcome(&mut store, &it, false);
    assert!(matches!(r, Err(AnnounceError::ConnectionLost)));
    assert!(!store.contains_exact(&it.id, &it.attributes.bumped_at));
    // the item stays eligible for the next cycle
    assert!(store.should_announce(&it));
}

#[test]
fn confirmed_probe_commits_item() {
    let mut store = SeenStore::new();
    let it = item("42", "2024-03-03T00:00:00Z");
    assert!(store.should_announce(&it));
    let r = record_send_outcome(&mut store, &it, true);
    assert!(r.is_ok());
    assert!(store.contains_exact(&it.id, &it.attributes.bumped_at));
    assert!(!store.should_announce(&it));
}

#[test]
fn empty_store_round_trip() {
    let store = SeenStore::new();
    let records = store.to_records();
    assert!(records.is_empty());
    let reloaded = SeenStore::from_records(&records);
    assert!(!reloaded.contains_exact(&"1".to_string(), &"a".to_string()));
}
