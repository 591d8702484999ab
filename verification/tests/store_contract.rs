use prismatic::config::{Config, Geometry};
use prismatic::store::{
    load_snapshot, next_quarantine_path, verify_revision, ConfigStore, Opened, Snapshot,
    StoreError, StoredDocument,
};

#[test]
fn a_missing_document_opens_the_defaults_to_be_written() {
    match ConfigStore::open(None) {
        Ok(Opened::Ready { store, needs_persist }) => {
            assert!(needs_persist);
            assert_eq!(store.snapshot(), Snapshot::default());
            assert!(store.recovery().is_none());
        }
        _ => panic!("a missing document must open"),
    }
}

#[test]
fn an_unreadable_document_is_corrupt_and_recovered_with_defaults() {
    let opened = ConfigStore::open(Some(StoredDocument::Unreadable(
        "expected value at line 1 column 2".into(),
    )));
    assert!(matches!(opened, Ok(Opened::Corrupt)));

    let quarantined = next_quarantine_path("/home/u/.config/prismatic/config.json.corrupt", &vec![]);
    let store = ConfigStore::recovered(quarantined.clone());
    assert_eq!(store.snapshot().config, Config::default());
    assert_eq!(store.snapshot().revision, 0);
    assert_eq!(store.recovery().unwrap().quarantined_path, quarantined);
}

#[test]
fn an_invalid_snapshot_is_corrupt() {
    let mut config = Config::default();
    config.geometry.icon_size = 200;
    let opened = ConfigStore::open(Some(StoredDocument::Snapshot(Snapshot {
        revision: 4,
        config,
    })));
    assert!(matches!(opened, Ok(Opened::Corrupt)));
}

#[test]
fn a_future_schema_is_refused_rather_than_treated_as_corrupt() {
    let mut config = Config::default();
    config.schema_version = 2;
    config.seeded = true;
    let opened = ConfigStore::open(Some(StoredDocument::Snapshot(Snapshot {
        revision: 9,
        config: config.clone(),
    })));
    assert!(matches!(opened, Err(StoreError::UnsupportedSchema(2))));

    let legacy = ConfigStore::open(Some(StoredDocument::Legacy(config)));
    assert!(matches!(legacy, Err(StoreError::UnsupportedSchema(2))));
}

#[test]
fn an_unwrapped_v1_document_migrates_to_revision_zero() {
    let legacy = Config {
        seeded: true,
        geometry: Geometry {
            icon_size: 56,
            ..Geometry::default()
        },
        ..Config::default()
    };
    match ConfigStore::open(Some(StoredDocument::Legacy(legacy.clone()))) {
        Ok(Opened::Ready { store, needs_persist }) => {
            assert!(needs_persist);
            assert_eq!(store.snapshot().revision, 0);
            assert_eq!(store.snapshot().config, legacy);
        }
        _ => panic!("a legacy document must migrate"),
    }
    let (snapshot, migrated) = load_snapshot(StoredDocument::Legacy(legacy.clone())).unwrap();
    assert!(migrated);
    assert_eq!(snapshot, Snapshot { revision: 0, config: legacy });
}

#[test]
fn quarantine_paths_skip_names_already_taken() {
    let base = "config.json.corrupt";
    assert_eq!(next_quarantine_path(base, &vec![]), "config.json.corrupt");
    assert_eq!(
        next_quarantine_path(base, &vec!["config.json.corrupt".to_string()]),
        "config.json.corrupt.1"
    );
    assert_eq!(
        next_quarantine_path(
            base,
            &vec![
                "config.json.corrupt.1".to_string(),
                "config.json.corrupt".to_string(),
                "config.json.corrupt.2".to_string(),
                "other".to_string(),
            ]
        ),
        "config.json.corrupt.3"
    );
    let many: Vec<String> = std::iter::once(base.to_string())
        .chain((1..=11).map(|n| format!("{base}.{n}")))
        .collect();
    assert_eq!(next_quarantine_path(base, &many), "config.json.corrupt.12");
}

#[test]
fn revision_checks_report_both_revisions() {
    assert!(verify_revision(3, 3).is_ok());
    let error = verify_revision(2, 3).unwrap_err();
    assert!(matches!(
        error,
        StoreError::RevisionConflict {
            expected: 2,
            actual: 3
        }
    ));
    assert_eq!(
        error.describe(),
        "configuration revision conflict: expected 2, actual 3"
    );
}

#[test]
fn favorite_errors_name_the_launcher() {
    let mut store = ConfigStore::default();
    let before = store.snapshot();

    let bad = store.pin(0, "../evil.desktop", None).unwrap_err();
    assert!(matches!(&bad, StoreError::InvalidDesktopId(id) if id == "../evil.desktop"));
    assert_eq!(bad.describe(), "invalid desktop entry identifier: ../evil.desktop");

    let anchor = store
        .pin(0, "firefox.desktop", Some("missing.desktop"))
        .unwrap_err();
    assert!(matches!(&anchor, StoreError::AnchorNotPinned(id) if id == "missing.desktop"));
    assert_eq!(anchor.describe(), "favorite anchor is not pinned: missing.desktop");

    let not_pinned = store.unpin(0, "firefox.desktop").unwrap_err();
    assert!(matches!(&not_pinned, StoreError::NotPinned(id) if id == "firefox.desktop"));
    assert_eq!(not_pinned.describe(), "favorite is not pinned: firefox.desktop");

    let not_moved = store.move_favorite(0, "firefox.desktop", None).unwrap_err();
    assert!(matches!(not_moved, StoreError::NotPinned(_)));

    assert_eq!(store.snapshot(), before);
}

#[test]
fn invalid_replacements_leave_the_store_unchanged() {
    let mut store = ConfigStore::default();
    let before = store.snapshot();
    let mut config = Config::default();
    config.appearance.corner_radius = 30;
    let error = store.replace(0, config).unwrap_err();
    assert!(matches!(&error, StoreError::InvalidConfig(e) if e.field() == "appearance.cornerRadius"));
    assert_eq!(
        error.describe(),
        "invalid field appearance.cornerRadius: must be between 0 and 24"
    );
    assert_eq!(store.snapshot(), before);
    assert_eq!(
        StoreError::UnsupportedSchema(3).describe(),
        "unsupported configuration schema version: 3"
    );
}

#[test]
fn pinning_an_already_pinned_launcher_moves_it() {
    let mut store = ConfigStore::default();
    let a = store.pin(0, "a.desktop", None).unwrap();
    let b = store.pin(a.revision, "b.desktop", None).unwrap();
    let c = store.pin(b.revision, "a.desktop", None).unwrap();
    assert_eq!(c.config.favorites, ["b.desktop", "a.desktop"]);
    assert_eq!(c.revision, 3);
}
