use prismatic::config::{
    is_hex_color, is_safe_desktop_id, Accent, Alignment, Appearance, ColorScheme, Config,
    DisplayMode, Edge, Geometry, LengthMode, Visibility, SCHEMA_VERSION,
};
use prismatic::store::{ConfigStore, Opened, StoreError, StoredDocument};

fn reopen(store: &ConfigStore) -> ConfigStore {
    match ConfigStore::open(Some(StoredDocument::Snapshot(store.snapshot()))) {
        Ok(Opened::Ready { store, needs_persist }) => {
            assert!(!needs_persist);
            store
        }
        _ => panic!("a stored snapshot must reopen"),
    }
}

#[test]
fn defaults_match_the_public_dock_contract() {
    let config = Config::default();

    assert_eq!(config.schema_version, 1);
    assert!(!config.seeded);
    assert!(config.favorites.is_empty());
    assert_eq!(config.display.mode, DisplayMode::Primary);
    assert_eq!(config.geometry.edge, Edge::Bottom);
    assert_eq!(config.geometry.length_mode, LengthMode::Fit);
    assert_eq!(config.geometry.custom_length_percent, 60);
    assert_eq!(config.geometry.alignment, Alignment::Center);
    assert_eq!(config.geometry.icon_size, 48);
    assert_eq!(config.behavior.visibility, Visibility::Dodge);
    assert_eq!(config.behavior.reveal_delay_ms, 160);
    assert_eq!(config.behavior.hide_delay_ms, 300);
    assert_eq!(config.behavior.shortcut, "<Super><Alt>d");
    assert_eq!(config.appearance.color_scheme, ColorScheme::System);
    assert_eq!(config.appearance, Appearance::default());
    assert!(config.validate().is_ok());
}

#[test]
fn validation_rejects_every_out_of_contract_range() {
    let mut icon = Config::default();
    icon.geometry.icon_size = 23;
    assert_eq!(icon.validate().unwrap_err().field(), "geometry.iconSize");

    let mut length = Config::default();
    length.geometry.custom_length_percent = 101;
    assert_eq!(
        length.validate().unwrap_err().field(),
        "geometry.customLengthPercent"
    );

    let mut reveal = Config::default();
    reveal.behavior.reveal_delay_ms = 1001;
    assert_eq!(
        reveal.validate().unwrap_err().field(),
        "behavior.revealDelayMs"
    );

    let mut opacity = Config::default();
    opacity.appearance.opacity_percent = 59;
    assert_eq!(
        opacity.validate().unwrap_err().field(),
        "appearance.opacityPercent"
    );

    let mut radius = Config::default();
    radius.appearance.corner_radius = 25;
    assert_eq!(
        radius.validate().unwrap_err().field(),
        "appearance.cornerRadius"
    );
}

#[test]
fn validation_rejects_unsafe_or_duplicate_launcher_ids() {
    for invalid in ["firefox", "../evil.desktop", "/tmp/evil.desktop", ""] {
        let mut config = Config::default();
        config.favorites.push(invalid.to_string());
        assert_eq!(config.validate().unwrap_err().field(), "favorites");
    }

    let duplicate = Config {
        favorites: vec!["firefox.desktop".into(), "firefox.desktop".into()],
        ..Config::default()
    };
    assert_eq!(duplicate.validate().unwrap_err().field(), "favorites");
}

#[test]
fn store_persists_snapshots_and_rejects_stale_revisions() {
    let mut store = ConfigStore::default();
    let mut next = store.snapshot().config;
    next.geometry.icon_size = 64;

    let saved = store.replace(0, next.clone()).unwrap();
    assert_eq!(saved.revision, 1);
    assert_eq!(saved.config, next);

    let stale = store.replace(0, Config::default()).unwrap_err();
    assert!(matches!(
        stale,
        StoreError::RevisionConflict {
            expected: 0,
            actual: 1
        }
    ));

    let reopened = reopen(&store);
    assert_eq!(reopened.snapshot(), saved);
}

#[test]
fn ordered_favorite_operations_are_atomic_and_revision_checked() {
    let mut store = ConfigStore::default();

    let first = store.pin(0, "firefox.desktop", None).unwrap();
    let second = store
        .pin(
            first.revision,
            "org.gnome.Nautilus.desktop",
            Some("firefox.desktop"),
        )
        .unwrap();
    assert_eq!(
        second.config.favorites,
        ["org.gnome.Nautilus.desktop", "firefox.desktop"]
    );

    let moved = store
        .move_favorite(
            second.revision,
            "firefox.desktop",
            Some("org.gnome.Nautilus.desktop"),
        )
        .unwrap();
    assert_eq!(
        moved.config.favorites,
        ["firefox.desktop", "org.gnome.Nautilus.desktop"]
    );

    let removed = store.unpin(moved.revision, "firefox.desktop").unwrap();
    assert_eq!(removed.config.favorites, ["org.gnome.Nautilus.desktop"]);
}

#[test]
fn every_rule_names_its_field_and_message() {
    let cases: Vec<(Box<dyn Fn(&mut Config)>, &str, &str)> = vec![
        (
            Box::new(|c: &mut Config| c.schema_version = 2),
            "schemaVersion",
            "unsupported schema version 2",
        ),
        (
            Box::new(|c: &mut Config| c.geometry.custom_length_percent = 24),
            "geometry.customLengthPercent",
            "must be between 25 and 100",
        ),
        (
            Box::new(|c: &mut Config| c.geometry.icon_size = 97),
            "geometry.iconSize",
            "must be between 24 and 96",
        ),
        (
            Box::new(|c: &mut Config| c.behavior.reveal_delay_ms = 1001),
            "behavior.revealDelayMs",
            "must be between 0 and 1000",
        ),
        (
            Box::new(|c: &mut Config| c.behavior.hide_delay_ms = 1001),
            "behavior.hideDelayMs",
            "must be between 0 and 1000",
        ),
        (
            Box::new(|c: &mut Config| c.appearance.opacity_percent = 101),
            "appearance.opacityPercent",
            "must be between 60 and 100",
        ),
        (
            Box::new(|c: &mut Config| c.appearance.corner_radius = 25),
            "appearance.cornerRadius",
            "must be between 0 and 24",
        ),
        (
            Box::new(|c: &mut Config| c.appearance.accent = Accent::Custom("#12345G".into())),
            "appearance.accent",
            "custom accent must use #RRGGBB",
        ),
        (
            Box::new(|c: &mut Config| c.behavior.shortcut = " \t".into()),
            "behavior.shortcut",
            "must not be empty",
        ),
        (
            Box::new(|c: &mut Config| {
                c.display
                    .connector_by_adapter
                    .push(("gnome".into(), "  ".into()))
            }),
            "display.connectorByAdapter",
            "adapter and connector names must not be empty",
        ),
        (
            Box::new(|c: &mut Config| c.favorites.push("a/b.desktop".into())),
            "favorites",
            "favorites must be unique installed desktop entry identifiers",
        ),
    ];
    for (change, field, message) in cases {
        let mut config = Config::default();
        change(&mut config);
        let error = config.validate().unwrap_err();
        assert_eq!(error.field(), field);
        assert_eq!(error.message(), message);
        assert_eq!(error.describe(), format!("invalid field {field}: {message}"));
    }
}

#[test]
fn the_schema_version_is_checked_before_any_other_rule() {
    let mut config = Config::default();
    config.schema_version = 7;
    config.geometry.icon_size = 0;
    config.favorites.push("bad".into());
    assert_eq!(config.validate().unwrap_err().field(), "schemaVersion");
    assert_eq!(SCHEMA_VERSION, 1);
}

#[test]
fn range_limits_are_inclusive() {
    let mut config = Config::default();
    config.geometry.custom_length_percent = 25;
    config.geometry.icon_size = 96;
    config.behavior.reveal_delay_ms = 1000;
    config.behavior.hide_delay_ms = 0;
    config.appearance.opacity_percent = 60;
    config.appearance.corner_radius = 24;
    config.appearance.accent = Accent::Custom("#a0B1c2".into());
    config
        .display
        .connector_by_adapter
        .push(("plasma".into(), "DP-1".into()));
    assert!(config.validate().is_ok());

    config.geometry.custom_length_percent = 100;
    config.geometry.icon_size = 24;
    config.appearance.opacity_percent = 100;
    assert!(config.validate().is_ok());
}

#[test]
fn hex_colors_are_hash_and_six_hex_digits() {
    assert!(is_hex_color("#000000"));
    assert!(is_hex_color("#aBcDeF"));
    assert!(!is_hex_color("000000"));
    assert!(!is_hex_color("#00000"));
    assert!(!is_hex_color("#0000000"));
    assert!(!is_hex_color("#00000g"));
    assert!(!is_hex_color(""));
}

#[test]
fn safe_desktop_ids_cannot_leave_the_applications_directory() {
    assert!(is_safe_desktop_id("firefox.desktop"));
    assert!(is_safe_desktop_id("org.gnome.Nautilus.desktop"));
    assert!(!is_safe_desktop_id(".desktop.bak"));
    assert!(!is_safe_desktop_id("a..b.desktop"));
    assert!(!is_safe_desktop_id("dir/app.desktop"));
    assert!(!is_safe_desktop_id("app\u{7}.desktop"));
    assert!(!is_safe_desktop_id(""));
}

#[test]
fn a_geometry_default_is_the_documented_one() {
    let geometry = Geometry::default();
    assert_eq!(geometry.edge, Edge::Bottom);
    assert_eq!(geometry.custom_length_percent, 60);
    let appearance = Appearance::default();
    assert_eq!(appearance.accent, Accent::System);
    assert_eq!(appearance.opacity_percent, 88);
    assert_eq!(appearance.corner_radius, 16);
}

#[test]
fn an_adapter_has_at_most_one_connector() {
    let mut config = Config::default();
    config
        .display
        .connector_by_adapter
        .push(("gnome".into(), "DP-1".into()));
    config
        .display
        .connector_by_adapter
        .push(("plasma".into(), "DP-1".into()));
    assert!(config.validate().is_ok());
    config
        .display
        .connector_by_adapter
        .push(("gnome".into(), "HDMI-A-1".into()));
    let error = config.validate().unwrap_err();
    assert_eq!(error.field(), "display.connectorByAdapter");
    assert_eq!(error.message(), "each adapter may have only one connector");
}
