use prismatic::config::Config;
use prismatic::store::{ConfigStore, Opened, StoreError, StoredDocument};

fn store_with(favorites: &[&str]) -> ConfigStore {
    let mut store = ConfigStore::default();
    let mut config = Config::default();
    config.favorites = favorites.iter().map(|id| id.to_string()).collect();
    store.replace(0, config).unwrap();
    store
}

#[test]
fn a_stale_client_is_refused_and_nothing_changes() {
    let mut store = store_with(&["a.desktop", "b.desktop"]);
    let before = store.snapshot();
    assert_eq!(before.revision, 1);
    for result in [
        store.replace(0, Config::default()),
        store.pin(0, "c.desktop", None),
        store.unpin(0, "a.desktop"),
        store.move_favorite(0, "b.desktop", Some("a.desktop")),
    ] {
        assert!(matches!(
            result,
            Err(StoreError::RevisionConflict {
                expected: 0,
                actual: 1
            })
        ));
    }
    assert_eq!(store.snapshot(), before);
}

#[test]
fn every_accepted_change_advances_the_revision_by_one() {
    let mut store = ConfigStore::default();
    let mut revision = store.snapshot().revision;
    let first = store.pin(revision, "a.desktop", None).unwrap();
    assert_eq!(first.revision, revision + 1);
    revision = first.revision;
    let second = store.pin(revision, "b.desktop", Some("a.desktop")).unwrap();
    assert_eq!(second.revision, revision + 1);
    let third = store.move_favorite(second.revision, "a.desktop", Some("b.desktop")).unwrap();
    assert_eq!(third.revision, second.revision + 1);
    let fourth = store.unpin(third.revision, "b.desktop").unwrap();
    assert_eq!(fourth.revision, third.revision + 1);
    assert!(fourth.config.validate().is_ok());
}

#[test]
fn unpinning_undoes_pinning() {
    let mut store = store_with(&["a.desktop", "b.desktop"]);
    let before = store.snapshot();
    let pinned = store.pin(before.revision, "c.desktop", Some("b.desktop")).unwrap();
    assert_eq!(pinned.config.favorites, ["a.desktop", "c.desktop", "b.desktop"]);
    let unpinned = store.unpin(pinned.revision, "c.desktop").unwrap();
    assert_eq!(unpinned.config, before.config);
    assert_eq!(unpinned.revision, before.revision + 2);

    let repinned = store.pin(unpinned.revision, "a.desktop", None).unwrap();
    assert_eq!(repinned.config.favorites, ["b.desktop", "a.desktop"]);
    let removed = store.unpin(repinned.revision, "a.desktop").unwrap();
    assert_eq!(removed.config.favorites, ["b.desktop"]);
}

#[test]
fn moving_reorders_without_adding_or_losing_launchers() {
    let mut store = store_with(&["a.desktop", "b.desktop", "c.desktop"]);
    let moved = store.move_favorite(1, "a.desktop", Some("c.desktop")).unwrap();
    assert_eq!(moved.config.favorites, ["b.desktop", "a.desktop", "c.desktop"]);
    let last = store.move_favorite(moved.revision, "b.desktop", None).unwrap();
    assert_eq!(last.config.favorites, ["a.desktop", "c.desktop", "b.desktop"]);
    let mut sorted = last.config.favorites.clone();
    sorted.sort();
    assert_eq!(sorted, ["a.desktop", "b.desktop", "c.desktop"]);
    let anchor_self = store
        .move_favorite(last.revision, "c.desktop", Some("c.desktop"))
        .unwrap_err();
    assert!(matches!(anchor_self, StoreError::AnchorNotPinned(_)));
}

#[test]
fn pinning_places_the_launcher_once_before_its_anchor() {
    let mut store = store_with(&["a.desktop", "b.desktop"]);
    let pinned = store.pin(1, "b.desktop", Some("a.desktop")).unwrap();
    assert_eq!(pinned.config.favorites, ["b.desktop", "a.desktop"]);
    let appended = store.pin(pinned.revision, "c.desktop", None).unwrap();
    assert_eq!(appended.config.favorites, ["b.desktop", "a.desktop", "c.desktop"]);
}

#[test]
fn what_is_stored_reloads_unchanged() {
    let mut store = store_with(&["a.desktop"]);
    let saved = store.pin(1, "b.desktop", None).unwrap();
    match ConfigStore::open(Some(StoredDocument::Snapshot(saved.clone()))) {
        Ok(Opened::Ready { store, needs_persist }) => {
            assert!(!needs_persist);
            assert_eq!(store.snapshot(), saved);
            assert!(store.recovery().is_none());
        }
        _ => panic!("a stored snapshot must reload"),
    }
}

#[test]
fn the_revision_counts_accepted_changes_only() {
    let mut store = ConfigStore::default();
    let mut accepted = 0;
    let attempts = [
        store.pin(0, "a.desktop", None).is_ok(),
        store.pin(0, "b.desktop", None).is_ok(),
        store.pin(1, "bad", None).is_ok(),
        store.pin(1, "b.desktop", Some("a.desktop")).is_ok(),
        store.unpin(2, "c.desktop").is_ok(),
        store.move_favorite(2, "a.desktop", Some("b.desktop")).is_ok(),
    ];
    for ok in attempts {
        if ok {
            accepted += 1;
        }
    }
    assert_eq!(accepted, 3);
    assert_eq!(store.snapshot().revision, 3);
    assert!(store.snapshot().config.validate().is_ok());
    assert_eq!(store.snapshot().config.favorites, ["a.desktop", "b.desktop"]);
}
