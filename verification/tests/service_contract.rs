use std::collections::HashSet;

use prismatic::catalog::{AppCatalog, SystemAppCatalog};
use prismatic::service::{seeded_favorites, validate_adapter_id, AdapterStatus, Service, ServiceError};
use prismatic::store::{ConfigStore, Opened, StoreError, StoredDocument};

#[derive(Clone)]
struct FakeCatalog {
    installed: HashSet<String>,
}

impl FakeCatalog {
    fn new(ids: &[&str]) -> Self {
        Self {
            installed: ids.iter().map(|id| (*id).to_string()).collect(),
        }
    }
}

impl AppCatalog for FakeCatalog {
    fn is_installed(&self, desktop_id: &str) -> bool {
        self.installed.contains(desktop_id)
    }
}

fn reopened(service: &Service<FakeCatalog>) -> ConfigStore {
    match ConfigStore::open(Some(StoredDocument::Snapshot(service.snapshot()))) {
        Ok(Opened::Ready { store, .. }) => store,
        _ => panic!("a stored snapshot must reopen"),
    }
}

#[test]
fn first_start_seeds_one_installed_fedora_launcher_per_role() {
    let store = ConfigStore::default();
    let catalog = FakeCatalog::new(&[
        "firefox.desktop",
        "org.gnome.Nautilus.desktop",
        "org.kde.dolphin.desktop",
        "org.gnome.Ptyxis.desktop",
        "org.gnome.Software.desktop",
    ]);

    let service = Service::new(store, catalog).unwrap();
    let snapshot = service.snapshot();

    assert!(snapshot.config.seeded);
    assert_eq!(
        snapshot.config.favorites,
        [
            "firefox.desktop",
            "org.gnome.Nautilus.desktop",
            "org.gnome.Ptyxis.desktop",
            "org.gnome.Software.desktop",
        ]
    );
}

#[test]
fn existing_configuration_is_never_seeded_again() {
    let store = ConfigStore::default();
    let catalog = FakeCatalog::new(&["firefox.desktop"]);
    let mut service = Service::new(store, catalog.clone()).unwrap();
    let revision = service.snapshot().revision;
    service.unpin(revision, "firefox.desktop").unwrap();
    let store = reopened(&service);
    drop(service);

    let reopened = Service::new(store, catalog).unwrap();
    assert!(reopened.snapshot().config.seeded);
    assert!(reopened.snapshot().config.favorites.is_empty());
}

#[test]
fn pin_rejects_launchers_that_are_not_installed() {
    let store = ConfigStore::default();
    let mut service = Service::new(store, FakeCatalog::new(&[])).unwrap();
    let revision = service.snapshot().revision;

    let error = service
        .pin(revision, "untrusted.desktop", None)
        .unwrap_err();

    assert!(matches!(
        error,
        ServiceError::UnknownDesktopEntry(id) if id == "untrusted.desktop"
    ));
}

#[test]
fn snapshot_replacement_rejects_uninstalled_favorites() {
    let store = ConfigStore::default();
    let mut service = Service::new(store, FakeCatalog::new(&[])).unwrap();
    let snapshot = service.snapshot();
    let mut config = snapshot.config;
    config.favorites = vec!["untrusted.desktop".into()];

    let error = service
        .replace_snapshot(snapshot.revision, config)
        .unwrap_err();

    assert!(matches!(
        error,
        ServiceError::UnknownDesktopEntry(id) if id == "untrusted.desktop"
    ));
}

#[test]
fn import_rejects_uninstalled_favorites_without_creating_a_rollback() {
    let store = ConfigStore::default();
    let mut service = Service::new(store, FakeCatalog::new(&[])).unwrap();
    let before = service.snapshot();
    let mut config = before.config.clone();
    config.favorites = vec!["untrusted.desktop".into()];

    let error = service.import(before.revision, config).unwrap_err();

    assert!(matches!(
        error,
        ServiceError::UnknownDesktopEntry(id) if id == "untrusted.desktop"
    ));
    assert_eq!(service.snapshot(), before);
}

#[test]
fn adapters_register_and_update_structured_runtime_status() {
    let store = ConfigStore::default();
    let mut service = Service::new(store, FakeCatalog::new(&[])).unwrap();
    let initial = AdapterStatus {
        active: true,
        version: "50.3".into(),
        capabilities: vec!["dodge".into(), "pressure-barrier".into()],
        outputs: vec!["DP-1".into()],
        message: None,
    };

    let returned = service.register_adapter("gnome", initial.clone()).unwrap();
    assert_eq!(returned, service.snapshot());
    assert_eq!(status_of(&service, "gnome"), Some(initial.clone()));

    let updated = AdapterStatus {
        active: false,
        message: Some("extension disabled".into()),
        ..initial
    };
    service
        .update_adapter_status("gnome", updated.clone())
        .unwrap();
    assert_eq!(status_of(&service, "gnome"), Some(updated));
}

#[test]
fn adapter_ids_are_closed_to_the_supported_desktops() {
    let store = ConfigStore::default();
    let mut service = Service::new(store, FakeCatalog::new(&[])).unwrap();

    let error = service
        .register_adapter("sway", AdapterStatus::default())
        .unwrap_err();

    assert!(matches!(
        error,
        ServiceError::UnsupportedAdapter(id) if id == "sway"
    ));
}

fn status_of(service: &Service<FakeCatalog>, id: &str) -> Option<AdapterStatus> {
    service
        .adapter_statuses()
        .into_iter()
        .find(|(adapter, _)| adapter == id)
        .map(|(_, status)| status)
}

#[test]
fn adapter_statuses_come_in_identifier_order() {
    let mut service = Service::new(ConfigStore::default(), FakeCatalog::new(&[])).unwrap();
    assert!(service.adapter_statuses().is_empty());
    let plasma = AdapterStatus {
        version: "6.6".into(),
        ..AdapterStatus::default()
    };
    service.update_adapter_status("plasma", plasma.clone()).unwrap();
    service
        .register_adapter("gnome", AdapterStatus::default())
        .unwrap();
    let statuses = service.adapter_statuses();
    let ids: Vec<&str> = statuses.iter().map(|(id, _)| id.as_str()).collect();
    assert_eq!(ids, ["gnome", "plasma"]);
    assert_eq!(statuses[1].1, plasma);
    assert!(validate_adapter_id("GNOME").is_err());
    assert!(validate_adapter_id("plasma").is_ok());
    assert_eq!(
        ServiceError::UnsupportedAdapter("sway".into()).describe(),
        "unsupported adapter: sway"
    );
}

#[test]
fn seeding_skips_roles_without_an_installed_candidate() {
    let catalog = FakeCatalog::new(&[
        "org.mozilla.firefox.desktop",
        "org.kde.konsole.desktop",
        "org.kde.discover.desktop",
    ]);
    let service = Service::new(ConfigStore::default(), catalog).unwrap();
    let snapshot = service.snapshot();
    assert_eq!(snapshot.revision, 1);
    assert_eq!(
        snapshot.config.favorites,
        [
            "org.mozilla.firefox.desktop",
            "org.kde.konsole.desktop",
            "org.kde.discover.desktop",
        ]
    );

    let nothing = Service::new(ConfigStore::default(), FakeCatalog::new(&[])).unwrap();
    assert!(nothing.snapshot().config.seeded);
    assert!(nothing.snapshot().config.favorites.is_empty());
}

#[test]
fn seeded_favorites_follow_the_answers_per_role() {
    let answers = vec![
        vec![false, true],
        vec![true],
        vec![false, false, false],
        vec![false, true],
    ];
    assert_eq!(
        seeded_favorites(&answers),
        [
            "org.mozilla.firefox.desktop",
            "org.gnome.Nautilus.desktop",
            "org.kde.discover.desktop",
        ]
    );
    assert!(seeded_favorites(&vec![]).is_empty());
}

#[test]
fn service_operations_check_installation_then_the_store() {
    let catalog = FakeCatalog::new(&["a.desktop", "b.desktop"]);
    let mut service = Service::new(ConfigStore::default(), catalog).unwrap();
    let start = service.snapshot();
    assert_eq!(start.revision, 1);
    assert!(start.config.favorites.is_empty());

    let pinned = service.pin(start.revision, "a.desktop", None).unwrap();
    let stale = service.pin(start.revision, "b.desktop", None).unwrap_err();
    assert!(matches!(
        stale,
        ServiceError::Store(StoreError::RevisionConflict {
            expected: 1,
            actual: 2
        })
    ));
    let both = service.pin(pinned.revision, "b.desktop", Some("a.desktop")).unwrap();
    assert_eq!(both.config.favorites, ["b.desktop", "a.desktop"]);
    let moved = service.move_favorite(both.revision, "b.desktop", None).unwrap();
    assert_eq!(moved.config.favorites, ["a.desktop", "b.desktop"]);

    let mut invalid = moved.config.clone();
    invalid.geometry.icon_size = 10;
    let error = service.replace_snapshot(moved.revision, invalid).unwrap_err();
    assert!(matches!(&error, ServiceError::Store(StoreError::InvalidConfig(_))));
    assert_eq!(error.describe(), "invalid field geometry.iconSize: must be between 24 and 96");

    let mut next = moved.config.clone();
    next.favorites = vec!["b.desktop".into()];
    let imported = service.import(moved.revision, next.clone()).unwrap();
    assert_eq!(imported.config, next);
    assert_eq!(imported.revision, moved.revision + 1);
    assert_eq!(service.store().snapshot(), imported);
}

#[test]
fn desktop_actions_are_refused_for_launchers_that_are_not_found() {
    let catalog = SystemAppCatalog::from_application_directories(vec![
        "/nonexistent-prismatic-test/applications".into(),
    ]);
    let service = Service::new(ConfigStore::default(), catalog).unwrap();
    let listing = |_: &str| -> Option<Vec<prismatic::catalog::ListedAction>> { Some(vec![]) };
    assert!(matches!(
        service.desktop_actions("missing.desktop", listing),
        Err(ServiceError::UnknownDesktopEntry(id)) if id == "missing.desktop"
    ));
    assert!(matches!(
        service.desktop_actions("../actions.desktop", listing),
        Err(ServiceError::UnknownDesktopEntry(_))
    ));
    assert!(matches!(
        service.launch_desktop_action("missing.desktop", "Private", listing, |_: &str, _: &str| {}),
        Err(ServiceError::UnknownDesktopEntry(_))
    ));
    assert_eq!(
        ServiceError::UnknownDesktopAction {
            desktop_id: "a.desktop".into(),
            action_id: "Missing".into()
        }
        .describe(),
        "desktop entry a.desktop has no action named Missing"
    );
}

#[test]
fn the_registry_keeps_the_latest_status_of_each_supported_adapter() {
    let mut service = Service::new(ConfigStore::default(), FakeCatalog::new(&[])).unwrap();
    let first = AdapterStatus { version: "1".into(), ..AdapterStatus::default() };
    let second = AdapterStatus { version: "2".into(), ..AdapterStatus::default() };
    service.register_adapter("gnome", first).unwrap();
    assert!(service.update_adapter_status("sway", second.clone()).is_err());
    service.update_adapter_status("gnome", second.clone()).unwrap();
    assert_eq!(status_of(&service, "gnome"), Some(second));
    assert_eq!(status_of(&service, "sway"), None);
    assert_eq!(service.adapter_statuses().len(), 1);
}

#[test]
fn the_catalog_answer_decides_a_pin() {
    let mut service = Service::new(ConfigStore::default(), FakeCatalog::new(&[])).unwrap();
    let revision = service.snapshot().revision;
    let refused = service
        .pin_answered(false, revision, "a.desktop", None)
        .unwrap_err();
    assert!(matches!(refused, ServiceError::UnknownDesktopEntry(id) if id == "a.desktop"));
    assert_eq!(service.snapshot().revision, revision);

    let pinned = service.pin_answered(true, revision, "a.desktop", None).unwrap();
    assert_eq!(pinned.config.favorites, ["a.desktop"]);
    assert_eq!(pinned.revision, revision + 1);

    let bad = service.pin_answered(true, pinned.revision, "bad", None).unwrap_err();
    assert!(matches!(bad, ServiceError::Store(StoreError::InvalidDesktopId(_))));
}

#[test]
fn the_catalog_answers_decide_a_replacement() {
    let mut service = Service::new(ConfigStore::default(), FakeCatalog::new(&[])).unwrap();
    let before = service.snapshot();
    let mut config = before.config.clone();
    config.favorites = vec!["a.desktop".into(), "b.desktop".into(), "c.desktop".into()];

    let refused = service
        .replace_snapshot_answered(&vec![true, false], before.revision, config.clone())
        .unwrap_err();
    assert!(matches!(refused, ServiceError::UnknownDesktopEntry(id) if id == "b.desktop"));
    assert_eq!(service.snapshot(), before);

    let mut invalid = config.clone();
    invalid.geometry.icon_size = 0;
    let invalid_error = service
        .replace_snapshot_answered(&vec![false], before.revision, invalid)
        .unwrap_err();
    assert!(matches!(invalid_error, ServiceError::Store(StoreError::InvalidConfig(_))));

    let accepted = service
        .replace_snapshot_answered(&vec![true, true, true], before.revision, config.clone())
        .unwrap();
    assert_eq!(accepted.config, config);
    assert_eq!(accepted.revision, before.revision + 1);
}
