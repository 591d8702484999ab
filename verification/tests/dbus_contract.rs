use prismatic::catalog::SystemAppCatalog;
use prismatic::config::Config;
use prismatic::dbus::{
    service_lock_path, DbusApi, DbusError, DBUS_INTERFACE, DBUS_NAME, DBUS_PATH,
};
use prismatic::service::{AdapterStatus, ServiceError};
use prismatic::store::{ConfigStore, StoreError};

fn api() -> DbusApi {
    DbusApi::open_with_catalog(
        ConfigStore::default(),
        SystemAppCatalog::from_application_directories(vec![
            "/nonexistent-prismatic-test/applications".into(),
        ]),
    )
    .unwrap()
}

#[test]
fn the_service_is_reached_under_its_published_names() {
    assert_eq!(DBUS_NAME, "io.github.CoJoA13.Prismatic.Service");
    assert_eq!(DBUS_PATH, "/io/github/CoJoA13/Prismatic");
    assert_eq!(DBUS_INTERFACE, "io.github.CoJoA13.Prismatic.Service1");
    assert_eq!(
        service_lock_path("/home/u/.config/prismatic/config.json"),
        "/home/u/.config/prismatic/config.json.lock"
    );
}

#[test]
fn opening_seeds_once_and_starts_without_adapters() {
    let api = api();
    let snapshot = api.get_snapshot();
    assert_eq!(snapshot.revision, 1);
    assert!(snapshot.config.seeded);
    assert!(snapshot.config.favorites.is_empty());
    assert!(api.get_adapter_statuses().is_empty());
    assert_eq!(api.service().snapshot(), snapshot);
}

#[test]
fn stale_requests_are_answered_with_a_revision_conflict() {
    let mut api = api();
    let error = api.replace_snapshot(0, Config::default()).unwrap_err();
    assert_eq!(
        error,
        DbusError::RevisionConflict("expected 0, actual 1".into())
    );
    assert_eq!(api.get_snapshot().revision, 1);
}

#[test]
fn each_service_error_gets_its_named_reply() {
    let mut api = api();
    assert_eq!(
        api.pin(1, "missing.desktop", "").unwrap_err(),
        DbusError::UnknownDesktopEntry("missing.desktop".into())
    );
    assert_eq!(
        api.unpin(1, "missing.desktop").unwrap_err(),
        DbusError::Failed("favorite is not pinned: missing.desktop".into())
    );
    assert_eq!(
        api.move_favorite(1, "missing.desktop", "other.desktop").unwrap_err(),
        DbusError::Failed("favorite is not pinned: missing.desktop".into())
    );

    let mut invalid = Config::default();
    invalid.appearance.opacity_percent = 50;
    assert_eq!(
        api.import(1, invalid).unwrap_err(),
        DbusError::InvalidConfig(
            "invalid field appearance.opacityPercent: must be between 60 and 100".into()
        )
    );

    let mut future = Config::default();
    future.schema_version = 2;
    assert_eq!(
        api.replace_snapshot(1, future).unwrap_err(),
        DbusError::UnsupportedSchema("invalid field schemaVersion: unsupported schema version 2".into())
    );

    assert_eq!(
        api.register_adapter("sway", AdapterStatus::default()).unwrap_err(),
        DbusError::UnsupportedAdapter("sway".into())
    );
    assert_eq!(
        api.update_adapter_status("xfce", AdapterStatus::default()).unwrap_err(),
        DbusError::UnsupportedAdapter("xfce".into())
    );
    assert_eq!(api.get_snapshot().revision, 1);
}

#[test]
fn service_errors_map_to_the_documented_domains() {
    let cases = vec![
        (
            ServiceError::UnknownDesktopAction {
                desktop_id: "a.desktop".into(),
                action_id: "Missing".into(),
            },
            DbusError::UnknownDesktopAction("a.desktop: Missing".into()),
        ),
        (
            ServiceError::Json("expected value".into()),
            DbusError::InvalidRequest("expected value".into()),
        ),
        (
            ServiceError::Store(StoreError::UnsupportedSchema(3)),
            DbusError::UnsupportedSchema("unsupported schema version 3".into()),
        ),
        (
            ServiceError::Store(StoreError::RevisionConflict {
                expected: 12,
                actual: 340,
            }),
            DbusError::RevisionConflict("expected 12, actual 340".into()),
        ),
        (
            ServiceError::Store(StoreError::Json("bad".into())),
            DbusError::InvalidConfig("bad".into()),
        ),
        (
            ServiceError::Store(StoreError::InvalidDesktopId("x".into())),
            DbusError::Failed("invalid desktop entry identifier: x".into()),
        ),
        (
            ServiceError::Store(StoreError::AnchorNotPinned("y.desktop".into())),
            DbusError::Failed("favorite anchor is not pinned: y.desktop".into()),
        ),
        (
            ServiceError::Store(StoreError::Io("disk full".into())),
            DbusError::Failed("disk full".into()),
        ),
        (
            ServiceError::UnknownDesktopEntry("z.desktop".into()),
            DbusError::UnknownDesktopEntry("z.desktop".into()),
        ),
        (
            ServiceError::UnsupportedAdapter("sway".into()),
            DbusError::UnsupportedAdapter("sway".into()),
        ),
    ];
    for (error, reply) in cases {
        assert_eq!(DbusError::from_service_error(error), reply);
    }
}

#[test]
fn adapters_registered_over_the_interface_are_listed() {
    let mut api = api();
    let status = AdapterStatus {
        active: true,
        version: "6.6".into(),
        capabilities: vec!["native-timing".into()],
        outputs: vec!["HDMI-A-1".into()],
        message: None,
    };
    let snapshot = api.register_adapter("plasma", status.clone()).unwrap();
    assert_eq!(snapshot, api.get_snapshot());
    let statuses = api.get_adapter_statuses();
    assert_eq!(statuses.len(), 1);
    assert_eq!(statuses[0].0, "plasma");
    assert_eq!(statuses[0].1, status);
    let quiet = AdapterStatus {
        active: false,
        ..status
    };
    api.update_adapter_status("plasma", quiet.clone()).unwrap();
    assert_eq!(api.get_adapter_statuses()[0].1, quiet);
}

#[test]
fn open_searches_the_xdg_directories() {
    let api = DbusApi::open(
        ConfigStore::default(),
        None,
        Some("/home/u".into()),
        Some("/opt/share::/usr/share".into()),
    )
    .unwrap();
    assert_eq!(
        api.service().catalog().application_directories(),
        &vec![
            "/home/u/.local/share/applications".to_string(),
            "/opt/share/applications".to_string(),
            "/usr/share/applications".to_string(),
        ]
    );
}
