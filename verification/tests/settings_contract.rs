use prismatic::config::{
    Accent, Alignment, ColorScheme, Config, DisplayMode, Edge, LengthMode, Visibility,
};
use prismatic::settings::{
    apply_form, command_report, edge_reported_occupied, form_of, plasma_activation_script,
    plasma_confirmation, plasma_edge_probe_script, plasma_script_outcome, set_connector,
};

#[test]
fn the_activation_script_creates_a_separate_panel_for_the_default_dock() {
    let script = plasma_activation_script(&Config::default());
    let expected = "
let found = false;
let occupied = false;
for (const existingPanel of panels()) {
    if (existingPanel.location === \"bottom\") {
        occupied = true;
    }
    if (existingPanel.widgets('io.github.CoJoA13.Prismatic').length > 0) {
        found = true;
    }
}
if (!found) {
    const panel = new Panel;
    panel.location = \"bottom\";
    panel.lengthMode = \"fit\";
    panel.alignment = \"center\";
    panel.height = 64;
    panel.hiding = \"dodgewindows\";
    const widget = panel.addWidget('io.github.CoJoA13.Prismatic');
    widget.currentConfigGroup = ['General'];
    widget.writeConfig('ownedPanelId', String(panel.id));
    widget.reloadConfig();
    print('created=' + panel.id + ';occupied=' + occupied);
} else {
    print('existing=true');
}
";
    assert_eq!(script, expected);
}

#[test]
fn vertical_edges_swap_start_and_end() {
    let mut config = Config::default();
    config.geometry.edge = Edge::Left;
    config.geometry.alignment = Alignment::Start;
    config.geometry.length_mode = LengthMode::Expand;
    config.geometry.icon_size = 96;
    config.behavior.visibility = Visibility::Fixed;
    let script = plasma_activation_script(&config);
    assert!(script.contains("panel.location = \"left\";"));
    assert!(script.contains("panel.alignment = \"right\";"));
    assert!(script.contains("panel.lengthMode = \"fill\";"));
    assert!(script.contains("panel.height = 112;"));
    assert!(script.contains("panel.hiding = \"none\";"));

    config.geometry.edge = Edge::Top;
    config.geometry.alignment = Alignment::End;
    config.geometry.length_mode = LengthMode::Custom;
    config.behavior.visibility = Visibility::Autohide;
    let script = plasma_activation_script(&config);
    assert!(script.contains("panel.alignment = \"right\";"));
    assert!(script.contains("panel.lengthMode = \"custom\";"));
    assert!(script.contains("panel.hiding = \"autohide\";"));

    config.geometry.edge = Edge::Right;
    let script = plasma_activation_script(&config);
    assert!(script.contains("panel.alignment = \"left\";"));
}

#[test]
fn the_edge_probe_reads_back_occupied_true() {
    assert_eq!(
        plasma_edge_probe_script(Edge::Right),
        "let occupied = false; for (const panel of panels()) { if (panel.location === \"right\" && panel.widgets('io.github.CoJoA13.Prismatic').length === 0) occupied = true; } print('occupied=' + occupied);"
    );
    assert!(edge_reported_occupied("occupied=true\n"));
    assert!(!edge_reported_occupied("occupied=false"));
    assert!(!edge_reported_occupied(""));
}

#[test]
fn shell_output_with_an_error_is_a_failure() {
    assert_eq!(
        plasma_script_outcome("created=3;occupied=false".into()),
        Ok("created=3;occupied=false".to_string())
    );
    assert_eq!(
        plasma_script_outcome("Error: ReferenceError".into()),
        Err("Error: ReferenceError".to_string())
    );
}

#[test]
fn command_reports_append_trimmed_output() {
    assert_eq!(command_report("GNOME extension enabled", "  \n"), "GNOME extension enabled");
    assert_eq!(
        command_report("Prismatic Plasma panel created or already present", " existing=true\n"),
        "Prismatic Plasma panel created or already present: existing=true"
    );
}

#[test]
fn the_confirmation_dialog_explains_what_will_happen() {
    let removal = plasma_confirmation(true, None);
    assert_eq!(removal.heading, "Remove the Prismatic dock?");
    assert_eq!(removal.action, "Remove Dock");
    assert!(removal.destructive);

    let occupied = plasma_confirmation(false, Some(true));
    assert_eq!(occupied.heading, "Create a separate Plasma dock?");
    assert!(occupied.body.starts_with("The selected edge already contains another panel."));
    assert!(!occupied.destructive);
    assert!(plasma_confirmation(false, Some(false)).body.starts_with("Prismatic will create"));
    assert!(plasma_confirmation(false, None).body.starts_with("Prismatic could not inspect"));
}

#[test]
fn connector_choices_are_trimmed_and_blank_clears_them() {
    let mut config = Config::default();
    set_connector(&mut config, "gnome", "  DP-1 ");
    set_connector(&mut config, "plasma", "HDMI-A-1");
    assert_eq!(
        config.display.connector_by_adapter,
        vec![
            ("gnome".to_string(), "DP-1".to_string()),
            ("plasma".to_string(), "HDMI-A-1".to_string()),
        ]
    );
    set_connector(&mut config, "gnome", "DP-2");
    assert_eq!(
        config.display.connector_by_adapter,
        vec![
            ("plasma".to_string(), "HDMI-A-1".to_string()),
            ("gnome".to_string(), "DP-2".to_string()),
        ]
    );
    set_connector(&mut config, "plasma", "   ");
    assert_eq!(
        config.display.connector_by_adapter,
        vec![("gnome".to_string(), "DP-2".to_string())]
    );
}

#[test]
fn the_form_shows_the_configuration_and_applies_back() {
    let mut config = Config::default();
    config.display.mode = DisplayMode::Selected;
    config
        .display
        .connector_by_adapter
        .push(("gnome".into(), "DP-1".into()));
    config.geometry.edge = Edge::Left;
    config.appearance.accent = Accent::Custom("#112233".into());
    config.appearance.color_scheme = ColorScheme::Dark;

    let form = form_of(&config);
    assert_eq!(form.display_mode, 1);
    assert_eq!(form.gnome_connector, "DP-1");
    assert_eq!(form.plasma_connector, "");
    assert_eq!(form.edge, 2);
    assert_eq!(form.length_mode, 0);
    assert_eq!(form.alignment, 1);
    assert_eq!(form.visibility, 2);
    assert_eq!(form.color_scheme, 2);
    assert_eq!(form.accent, "#112233");
    assert_eq!(form.icon_size, 48);

    assert_eq!(apply_form(&form, config.clone()).unwrap(), config);

    let mut edited = form_of(&config);
    edited.accent = "System".into();
    edited.edge = 7;
    edited.icon_size = 30;
    let applied = apply_form(&edited, config.clone()).unwrap();
    assert_eq!(applied.appearance.accent, Accent::System);
    assert_eq!(applied.geometry.edge, Edge::Right);
    assert_eq!(applied.geometry.icon_size, 30);

    edited.accent = "red".into();
    assert_eq!(
        apply_form(&edited, config.clone()).unwrap_err(),
        "invalid field appearance.accent: custom accent must use #RRGGBB"
    );
}
