//! The computing parts of the settings application: the scripts it hands to
//! the Plasma shell and how it reads their answers, how it reports the outcome of
//! a command, the wording of its confirmation dialog, the session summary it
//! shows, and editing the connector chosen per adapter.

use vstd::prelude::*;

use crate::config::{
    config_error_text, config_valid, first_violation, violation_error, Accent, AccentView,
    Alignment, AppearanceView, BehaviorView, ColorScheme, Config, ConfigView, DisplayConfigView,
    DisplayMode, Edge, Geometry, LengthMode, Visibility,
};
use crate::session::{detected, session_error_text, DesktopSession};
use crate::text::{
    contains_text, decimal, decimal_text, eq_ignore_ascii_case, text_contains,
    text_eq_ignore_ascii_case, text_equals, trimmed, trimmed_text,
};

verus! {

/// The Plasma name of a screen edge.
pub open spec fn edge_name(edge: Edge) -> Seq<char> {
    match edge {
        Edge::Top => "top"@,
        Edge::Bottom => "bottom"@,
        Edge::Left => "left"@,
        Edge::Right => "right"@,
    }
}

/// The Plasma panel alignment for the dock's alignment along its edge. Plasma counts
/// along a vertical edge from the other end, so start and end swap there.
pub open spec fn alignment_name(geometry: Geometry) -> Seq<char> {
    let vertical = geometry.edge == Edge::Left || geometry.edge == Edge::Right;
    match geometry.alignment {
        Alignment::Center => "center"@,
        Alignment::Start => if vertical {
            "right"@
        } else {
            "left"@
        },
        Alignment::End => if vertical {
            "left"@
        } else {
            "right"@
        },
    }
}

/// The Plasma panel length mode for the dock's length mode.
pub open spec fn length_mode_name(mode: LengthMode) -> Seq<char> {
    match mode {
        LengthMode::Fit => "fit"@,
        LengthMode::Expand => "fill"@,
        LengthMode::Custom => "custom"@,
    }
}

/// The Plasma panel hiding mode for the dock's visibility.
pub open spec fn hiding_name(visibility: Visibility) -> Seq<char> {
    match visibility {
        Visibility::Fixed => "none"@,
        Visibility::Autohide => "autohide"@,
        Visibility::Dodge => "dodgewindows"@,
    }
}

/// The Plasma shell script that creates a separate dock panel holding the Prismatic
/// applet, unless a panel holding it exists already. It never modifies another panel;
/// it reports whether the chosen edge was occupied. The panel is 16 pixels taller
/// than the icons.
pub open spec fn activation_text(geometry: Geometry, visibility: Visibility) -> Seq<char> {
    "\nlet found = false;\nlet occupied = false;\nfor (const existingPanel of panels()) {\n    if (existingPanel.location === \""@ + edge_name(geometry.edge) + "\") {\n        occupied = true;\n    }\n    if (existingPanel.widgets('io.github.CoJoA13.Prismatic').length > 0) {\n        found = true;\n    }\n}\nif (!found) {\n    const panel = new Panel;\n    panel.location = \""@
        + edge_name(geometry.edge) + "\";\n    panel.lengthMode = \""@ + length_mode_name(geometry.length_mode)
        + "\";\n    panel.alignment = \""@ + alignment_name(geometry) + "\";\n    panel.height = "@ + decimal(
        (geometry.icon_size + 16) as nat,
    ) + ";\n    panel.hiding = \""@ + hiding_name(visibility) + "\";\n    const widget = panel.addWidget('io.github.CoJoA13.Prismatic');\n    widget.currentConfigGroup = ['General'];\n    widget.writeConfig('ownedPanelId', String(panel.id));\n    widget.reloadConfig();\n    print('created=' + panel.id + ';occupied=' + occupied);\n} else {\n    print('existing=true');\n}\n"@
}

/// The activation script sets the panel's alignment to [`alignment_name`].
pub proof fn lemma_activation_sets_alignment(geometry: Geometry, visibility: Visibility)
    ensures
        contains_text(
            activation_text(geometry, visibility),
            "panel.alignment = \""@ + alignment_name(geometry) + "\";"@,
        ),
{
    let head = "\nlet found = false;\nlet occupied = false;\nfor (const existingPanel of panels()) {\n    if (existingPanel.location === \""@ + edge_name(geometry.edge) + "\") {\n        occupied = true;\n    }\n    if (existingPanel.widgets('io.github.CoJoA13.Prismatic').length > 0) {\n        found = true;\n    }\n}\nif (!found) {\n    const panel = new Panel;\n    panel.location = \""@
        + edge_name(geometry.edge) + "\";\n    panel.lengthMode = \""@ + length_mode_name(geometry.length_mode);
    let before = "\";\n    panel.alignment = \""@;
    let after = "\";\n    panel.height = "@;
    let tail = decimal((geometry.icon_size + 16) as nat) + ";\n    panel.hiding = \""@ + hiding_name(visibility) + "\";\n    const widget = panel.addWidget('io.github.CoJoA13.Prismatic');\n    widget.currentConfigGroup = ['General'];\n    widget.writeConfig('ownedPanelId', String(panel.id));\n    widget.reloadConfig();\n    print('created=' + panel.id + ';occupied=' + occupied);\n} else {\n    print('existing=true');\n}\n"@;
    let name = alignment_name(geometry);
    let text = activation_text(geometry, visibility);
    assert(text =~= head + (before + name + after) + tail);
    reveal_strlit("\";\n    panel.alignment = \"");
    reveal_strlit("\";\n    panel.height = ");
    reveal_strlit("panel.alignment = \"");
    reveal_strlit("\";");
    let target = "panel.alignment = \""@ + name + "\";"@;
    let i: int = head.len() as int + 7;
    assert(text.subrange(i, i + target.len() as int) =~= target);
}

/// The Plasma shell script that reports whether a panel without the Prismatic applet
/// occupies `edge`.
pub open spec fn edge_probe_text(edge: Edge) -> Seq<char> {
    "let occupied = false; for (const panel of panels()) { if (panel.location === \""@ + edge_name(edge) + "\" && panel.widgets('io.github.CoJoA13.Prismatic').length === 0) occupied = true; } print('occupied=' + occupied);"@
}

/// The text shown for a command that succeeded: the success note, followed by what
/// the command printed (trimmed), if anything.
pub open spec fn report_text(success: Seq<char>, output: Seq<char>) -> Seq<char> {
    if trimmed(output).len() == 0 {
        success
    } else {
        success + ": "@ + trimmed(output)
    }
}

/// `connectors` without the choice recorded for `adapter`.
pub open spec fn without_adapter(connectors: Seq<(Seq<char>, Seq<char>)>, adapter: Seq<char>) -> Seq<
    (Seq<char>, Seq<char>),
>
    decreases connectors.len(),
{
    if connectors.len() == 0 {
        connectors
    } else if connectors.last().0 == adapter {
        without_adapter(connectors.drop_last(), adapter)
    } else {
        without_adapter(connectors.drop_last(), adapter).push(connectors.last())
    }
}

/// The connector choices after choosing `connector` for `adapter`: a blank choice
/// clears the adapter's entry, any other one (trimmed) replaces it. Each adapter keeps
/// at most one entry; the order of the entries carries no meaning.
pub open spec fn connectors_after(
    connectors: Seq<(Seq<char>, Seq<char>)>,
    adapter: Seq<char>,
    connector: Seq<char>,
) -> Seq<(Seq<char>, Seq<char>)> {
    if trimmed(connector).len() == 0 {
        without_adapter(connectors, adapter)
    } else {
        without_adapter(connectors, adapter).push((adapter, trimmed(connector)))
    }
}

/// The Plasma name of `edge`.
fn edge_text(edge: Edge) -> (s: &'static str)
    ensures
        s@ == edge_name(edge),
{
    match edge {
        Edge::Top => "top",
        Edge::Bottom => "bottom",
        Edge::Left => "left",
        Edge::Right => "right",
    }
}

/// The Plasma alignment for `geometry`.
fn alignment_text(geometry: Geometry) -> (s: &'static str)
    ensures
        s@ == alignment_name(geometry),
{
    let vertical = match geometry.edge {
        Edge::Left | Edge::Right => true,
        _ => false,
    };
    match geometry.alignment {
        Alignment::Center => "center",
        Alignment::Start => if vertical {
            "right"
        } else {
            "left"
        },
        Alignment::End => if vertical {
            "left"
        } else {
            "right"
        },
    }
}

/// The Plasma length mode for `mode`.
fn length_mode_text(mode: LengthMode) -> (s: &'static str)
    ensures
        s@ == length_mode_name(mode),
{
    match mode {
        LengthMode::Fit => "fit",
        LengthMode::Expand => "fill",
        LengthMode::Custom => "custom",
    }
}

/// The Plasma hiding mode for `visibility`.
fn hiding_text(visibility: Visibility) -> (s: &'static str)
    ensures
        s@ == hiding_name(visibility),
{
    match visibility {
        Visibility::Fixed => "none",
        Visibility::Autohide => "autohide",
        Visibility::Dodge => "dodgewindows",
    }
}

/// The Plasma shell script that creates the dock panel for `config`.
pub fn plasma_activation_script(config: &Config) -> (script: String)
    ensures
        script@ == activation_text(config.geometry, config.behavior.visibility),
{
    let geometry = config.geometry;
    let edge = edge_text(geometry.edge);
    let height = decimal_text(geometry.icon_size as u64 + 16);
    let mut s = String::from_str("\nlet found = false;\nlet occupied = false;\nfor (const existingPanel of panels()) {\n    if (existingPanel.location === \"");
    s.append(edge);
    s.append("\") {\n        occupied = true;\n    }\n    if (existingPanel.widgets('io.github.CoJoA13.Prismatic').length > 0) {\n        found = true;\n    }\n}\nif (!found) {\n    const panel = new Panel;\n    panel.location = \"");
    s.append(edge);
    s.append("\";\n    panel.lengthMode = \"");
    s.append(length_mode_text(geometry.length_mode));
    s.append("\";\n    panel.alignment = \"");
    s.append(alignment_text(geometry));
    s.append("\";\n    panel.height = ");
    s.append(height.as_str());
    s.append(";\n    panel.hiding = \"");
    s.append(hiding_text(config.behavior.visibility));
    s.append("\";\n    const widget = panel.addWidget('io.github.CoJoA13.Prismatic');\n    widget.currentConfigGroup = ['General'];\n    widget.writeConfig('ownedPanelId', String(panel.id));\n    widget.reloadConfig();\n    print('created=' + panel.id + ';occupied=' + occupied);\n} else {\n    print('existing=true');\n}\n");
    s
}

/// The Plasma shell script that probes whether another panel occupies `edge`.
pub fn plasma_edge_probe_script(edge: Edge) -> (script: String)
    ensures
        script@ == edge_probe_text(edge),
{
    let mut s = String::from_str("let occupied = false; for (const panel of panels()) { if (panel.location === \"");
    s.append(edge_text(edge));
    s.append("\" && panel.widgets('io.github.CoJoA13.Prismatic').length === 0) occupied = true; } print('occupied=' + occupied);");
    s
}

/// Reads the answer of the edge probe: the edge is occupied when the shell printed
/// `occupied=true`.
pub fn edge_reported_occupied(output: &str) -> (occupied: bool)
    ensures
        occupied == contains_text(output@, "occupied=true"@),
{
    text_contains(output, "occupied=true")
}

/// Reads what the Plasma shell printed for a script: output that holds `Error:` is a
/// failure, anything else a success; either way the output is passed on.
pub fn plasma_script_outcome(output: String) -> (r: Result<String, String>)
    ensures
        match r {
            Ok(o) => !contains_text(output@, "Error:"@) && o@ == output@,
            Err(o) => contains_text(output@, "Error:"@) && o@ == output@,
        },
{
    if text_contains(output.as_str(), "Error:") {
        Err(output)
    } else {
        Ok(output)
    }
}

/// The report for a command that succeeded with the note `success` after printing
/// `output`.
pub fn command_report(success: &str, output: &str) -> (report: String)
    ensures
        report@ == report_text(success@, output@),
{
    let details = trimmed_text(output);
    let mut report = String::from_str(success);
    if details.unicode_len() != 0 {
        report.append(": ");
        report.append(details.as_str());
    }
    report
}

/// What the confirmation dialog for a Plasma dock change says.
pub struct PlasmaConfirmation {
    pub heading: &'static str,
    pub body: &'static str,
    pub action: &'static str,
    pub destructive: bool,
}

/// The confirmation dialog for removing the dock (`removing`) or creating it, given
/// what the edge probe found (`occupied`; `None` when the edge could not be inspected).
pub fn plasma_confirmation(removing: bool, occupied: Option<bool>) -> (c: PlasmaConfirmation)
    ensures
        c.destructive == removing,
        removing ==> c.heading@ == "Remove the Prismatic dock?"@ && c.action@ == "Remove Dock"@
            && c.body@ == "Only a panel containing Prismatic whose recorded ownership ID matches the panel will be removed. Existing panels are never touched."@,
        !removing ==> c.heading@ == "Create a separate Plasma dock?"@ && c.action@ == "Create Dock"@
            && c.body@ == match occupied {
            Some(true) => "The selected edge already contains another panel. Prismatic will create a separate owned panel and will not modify the existing panel."@,
            Some(false) => "Prismatic will create a separate owned panel and will not modify any existing desktop UI."@,
            None => "Prismatic could not inspect the selected edge. It may already contain a panel; Prismatic will not modify existing desktop UI."@,
        },
{
    if removing {
        PlasmaConfirmation {
            heading: "Remove the Prismatic dock?",
            body: "Only a panel containing Prismatic whose recorded ownership ID matches the panel will be removed. Existing panels are never touched.",
            action: "Remove Dock",
            destructive: true,
        }
    } else {
        let body = match occupied {
            Some(true) => "The selected edge already contains another panel. Prismatic will create a separate owned panel and will not modify the existing panel.",
            Some(false) => "Prismatic will create a separate owned panel and will not modify any existing desktop UI.",
            None => "Prismatic could not inspect the selected edge. It may already contain a panel; Prismatic will not modify existing desktop UI.",
        };
        PlasmaConfirmation {
            heading: "Create a separate Plasma dock?",
            body,
            action: "Create Dock",
            destructive: false,
        }
    }
}

/// The session line of the settings window: the detected desktop on Wayland, or why
/// the session is not supported.
pub fn session_summary(current_desktop: &str, session_type: &str) -> (r: Result<String, String>)
    ensures
        match detected(current_desktop@, session_type@) {
            Ok(DesktopSession::Gnome) => r matches Ok(s) && s@ == "Gnome on Wayland"@,
            Ok(DesktopSession::Plasma) => r matches Ok(s) && s@ == "Plasma on Wayland"@,
            Err(e) => r matches Err(m) && m@ == session_error_text(e),
        },
{
    match DesktopSession::detect(current_desktop, session_type) {
        Ok(DesktopSession::Gnome) => Ok(String::from_str("Gnome on Wayland")),
        Ok(DesktopSession::Plasma) => Ok(String::from_str("Plasma on Wayland")),
        Err(e) => Err(e.describe()),
    }
}

/// Records `connector` as the display connector chosen for `adapter`; a blank
/// `connector` clears the choice.
pub fn set_connector(config: &mut Config, adapter: &str, connector: &str)
    ensures
        final(config)@ == (ConfigView {
            display: DisplayConfigView {
                connectors: connectors_after(old(config)@.display.connectors, adapter@, connector@),
                ..old(config)@.display
            },
            ..old(config)@
        }),
{
    let ghost before = old(config)@.display.connectors;
    let mut kept: Vec<(String, String)> = Vec::new();
    let mut i: usize = 0;
    while i < config.display.connector_by_adapter.len()
        invariant
            i <= config.display.connector_by_adapter.len(),
            config@ == old(config)@,
            before == config@.display.connectors,
            kept@.map_values(|p: (String, String)| (p.0@, p.1@)) == without_adapter(
                before.take(i as int),
                adapter@,
            ),
        decreases config.display.connector_by_adapter.len() - i,
    {
        let entry = &config.display.connector_by_adapter[i];
        proof {
            assert(before.take(i + 1).drop_last() =~= before.take(i as int));
            assert(before.take(i + 1).last() == before[i as int]);
            assert(before[i as int] == (entry.0@, entry.1@));
        }
        if !text_equals(entry.0.as_str(), adapter) {
            let ghost kept_before = kept@;
            kept.push((entry.0.clone(), entry.1.clone()));
            proof {
                assert(kept@.map_values(|p: (String, String)| (p.0@, p.1@)) =~= kept_before.map_values(
                    |p: (String, String)| (p.0@, p.1@),
                ).push(before[i as int]));
            }
        }
        i = i + 1;
    }
    assert(before.take(before.len() as int) =~= before);
    let chosen = trimmed_text(connector);
    if chosen.unicode_len() != 0 {
        let ghost kept_before = kept@;
        kept.push((String::from_str(adapter), chosen));
        proof {
            assert(kept@.map_values(|p: (String, String)| (p.0@, p.1@)) =~= kept_before.map_values(
                |p: (String, String)| (p.0@, p.1@),
            ).push((adapter@, trimmed(connector@))));
        }
    }
    config.display.connector_by_adapter = kept;
}

/// What the settings window's controls hold: a selected row index for each choice,
/// the text of each entry, and the whole-number value of each spin button.
pub struct SettingsForm {
    pub display_mode: u32,
    pub gnome_connector: String,
    pub plasma_connector: String,
    pub edge: u32,
    pub length_mode: u32,
    pub custom_length_percent: u8,
    pub alignment: u32,
    pub icon_size: u8,
    pub visibility: u32,
    pub reveal_delay_ms: u16,
    pub hide_delay_ms: u16,
    pub shortcut: String,
    pub color_scheme: u32,
    pub accent: String,
    pub opacity_percent: u8,
    pub corner_radius: u8,
}

/// The display mode selected by row `i` (Primary, Selected connector).
pub open spec fn display_mode_at(i: u32) -> DisplayMode {
    if i == 0 {
        DisplayMode::Primary
    } else {
        DisplayMode::Selected
    }
}

/// The edge selected by row `i` (Top, Bottom, Left, Right).
pub open spec fn edge_at(i: u32) -> Edge {
    if i == 0 {
        Edge::Top
    } else if i == 1 {
        Edge::Bottom
    } else if i == 2 {
        Edge::Left
    } else {
        Edge::Right
    }
}

/// The length mode selected by row `i` (Fit Content, Expand to Edge, Custom).
pub open spec fn length_mode_at(i: u32) -> LengthMode {
    if i == 0 {
        LengthMode::Fit
    } else if i == 1 {
        LengthMode::Expand
    } else {
        LengthMode::Custom
    }
}

/// The alignment selected by row `i` (Start, Center, End).
pub open spec fn alignment_at(i: u32) -> Alignment {
    if i == 0 {
        Alignment::Start
    } else if i == 1 {
        Alignment::Center
    } else {
        Alignment::End
    }
}

/// The visibility selected by row `i` (Fixed, Auto-hide, Dodge Windows).
pub open spec fn visibility_at(i: u32) -> Visibility {
    if i == 0 {
        Visibility::Fixed
    } else if i == 1 {
        Visibility::Autohide
    } else {
        Visibility::Dodge
    }
}

/// The colour scheme selected by row `i` (System, Light, Dark).
pub open spec fn color_scheme_at(i: u32) -> ColorScheme {
    if i == 0 {
        ColorScheme::System
    } else if i == 1 {
        ColorScheme::Light
    } else {
        ColorScheme::Dark
    }
}

/// The accent an entry's text names: `system` in any ASCII case is the desktop's
/// accent, anything else a custom colour.
pub open spec fn accent_named(text: Seq<char>) -> AccentView {
    if eq_ignore_ascii_case(text, "system"@) {
        AccentView::System
    } else {
        AccentView::Custom(text)
    }
}

/// `config` with the choices of `form` applied.
pub open spec fn form_applied(form: SettingsForm, config: ConfigView) -> ConfigView {
    ConfigView {
        display: DisplayConfigView {
            mode: display_mode_at(form.display_mode),
            connectors: connectors_after(
                connectors_after(config.display.connectors, "gnome"@, form.gnome_connector@),
                "plasma"@,
                form.plasma_connector@,
            ),
        },
        geometry: Geometry {
            edge: edge_at(form.edge),
            length_mode: length_mode_at(form.length_mode),
            custom_length_percent: form.custom_length_percent,
            alignment: alignment_at(form.alignment),
            icon_size: form.icon_size,
        },
        behavior: BehaviorView {
            visibility: visibility_at(form.visibility),
            reveal_delay_ms: form.reveal_delay_ms,
            hide_delay_ms: form.hide_delay_ms,
            shortcut: form.shortcut@,
        },
        appearance: AppearanceView {
            color_scheme: color_scheme_at(form.color_scheme),
            accent: accent_named(form.accent@),
            opacity_percent: form.opacity_percent,
            corner_radius: form.corner_radius,
        },
        ..config
    }
}

/// The connector recorded for `adapter` (its first entry), or the empty text.
pub open spec fn connector_for(connectors: Seq<(Seq<char>, Seq<char>)>, adapter: Seq<char>) -> Seq<
    char,
>
    decreases connectors.len(),
{
    if connectors.len() == 0 {
        Seq::empty()
    } else if connectors[0].0 == adapter {
        connectors[0].1
    } else {
        connector_for(connectors.drop_first(), adapter)
    }
}

/// The row of each choice and the text of each entry for `config`: how the settings
/// window shows it.
pub open spec fn form_shows(form: SettingsForm, config: ConfigView) -> bool {
    &&& form.display_mode == match config.display.mode {
        DisplayMode::Primary => 0u32,
        DisplayMode::Selected => 1u32,
    }
    &&& form.gnome_connector@ == connector_for(config.display.connectors, "gnome"@)
    &&& form.plasma_connector@ == connector_for(config.display.connectors, "plasma"@)
    &&& form.edge == match config.geometry.edge {
        Edge::Top => 0u32,
        Edge::Bottom => 1u32,
        Edge::Left => 2u32,
        Edge::Right => 3u32,
    }
    &&& form.length_mode == match config.geometry.length_mode {
        LengthMode::Fit => 0u32,
        LengthMode::Expand => 1u32,
        LengthMode::Custom => 2u32,
    }
    &&& form.custom_length_percent == config.geometry.custom_length_percent
    &&& form.alignment == match config.geometry.alignment {
        Alignment::Start => 0u32,
        Alignment::Center => 1u32,
        Alignment::End => 2u32,
    }
    &&& form.icon_size == config.geometry.icon_size
    &&& form.visibility == match config.behavior.visibility {
        Visibility::Fixed => 0u32,
        Visibility::Autohide => 1u32,
        Visibility::Dodge => 2u32,
    }
    &&& form.reveal_delay_ms == config.behavior.reveal_delay_ms
    &&& form.hide_delay_ms == config.behavior.hide_delay_ms
    &&& form.shortcut@ == config.behavior.shortcut
    &&& form.color_scheme == match config.appearance.color_scheme {
        ColorScheme::System => 0u32,
        ColorScheme::Light => 1u32,
        ColorScheme::Dark => 2u32,
    }
    &&& form.accent@ == match config.appearance.accent {
        AccentView::System => "system"@,
        AccentView::Custom(color) => color,
    }
    &&& form.opacity_percent == config.appearance.opacity_percent
    &&& form.corner_radius == config.appearance.corner_radius
}

/// The connector recorded for `adapter` in `connectors`, or the empty text.
fn connector_text(connectors: &Vec<(String, String)>, adapter: &str) -> (c: String)
    ensures
        c@ == connector_for(connectors@.map_values(|p: (String, String)| (p.0@, p.1@)), adapter@),
{
    let ghost cs = connectors@.map_values(|p: (String, String)| (p.0@, p.1@));
    let mut i: usize = 0;
    assert(cs.skip(0) =~= cs);
    while i < connectors.len()
        invariant
            cs == connectors@.map_values(|p: (String, String)| (p.0@, p.1@)),
            i <= connectors.len(),
            connector_for(cs, adapter@) == connector_for(cs.skip(i as int), adapter@),
        decreases connectors.len() - i,
    {
        assert(cs.skip(i as int)[0] == cs[i as int]);
        assert(cs.skip(i as int).drop_first() =~= cs.skip(i + 1));
        if text_equals(connectors[i].0.as_str(), adapter) {
            return connectors[i].1.clone();
        }
        i = i + 1;
    }
    String::new()
}

/// The controls' contents that show `config`.
pub fn form_of(config: &Config) -> (form: SettingsForm)
    ensures
        form_shows(form, config@),
{
    SettingsForm {
        display_mode: match config.display.mode {
            DisplayMode::Primary => 0,
            DisplayMode::Selected => 1,
        },
        gnome_connector: connector_text(&config.display.connector_by_adapter, "gnome"),
        plasma_connector: connector_text(&config.display.connector_by_adapter, "plasma"),
        edge: match config.geometry.edge {
            Edge::Top => 0,
            Edge::Bottom => 1,
            Edge::Left => 2,
            Edge::Right => 3,
        },
        length_mode: match config.geometry.length_mode {
            LengthMode::Fit => 0,
            LengthMode::Expand => 1,
            LengthMode::Custom => 2,
        },
        custom_length_percent: config.geometry.custom_length_percent,
        alignment: match config.geometry.alignment {
            Alignment::Start => 0,
            Alignment::Center => 1,
            Alignment::End => 2,
        },
        icon_size: config.geometry.icon_size,
        visibility: match config.behavior.visibility {
            Visibility::Fixed => 0,
            Visibility::Autohide => 1,
            Visibility::Dodge => 2,
        },
        reveal_delay_ms: config.behavior.reveal_delay_ms,
        hide_delay_ms: config.behavior.hide_delay_ms,
        shortcut: config.behavior.shortcut.clone(),
        color_scheme: match config.appearance.color_scheme {
            ColorScheme::System => 0,
            ColorScheme::Light => 1,
            ColorScheme::Dark => 2,
        },
        accent: match &config.appearance.accent {
            Accent::System => String::from_str("system"),
            Accent::Custom(color) => color.clone(),
        },
        opacity_percent: config.appearance.opacity_percent,
        corner_radius: config.appearance.corner_radius,
    }
}

/// Applies the controls' contents to `config`, which is offered to the service only
/// when it satisfies the configuration rules; otherwise the first broken rule is
/// reported.
pub fn apply_form(form: &SettingsForm, config: Config) -> (r: Result<Config, String>)
    ensures
        match r {
            Ok(applied) => config_valid(form_applied(*form, config@)) && applied@ == form_applied(
                *form,
                config@,
            ),
            Err(message) => !config_valid(form_applied(*form, config@)) && message@
                == config_error_text(
                violation_error(
                    first_violation(form_applied(*form, config@))->0,
                    form_applied(*form, config@),
                ),
            ),
        },
{
    let mut config = config;
    config.display.mode = if form.display_mode == 0 {
        DisplayMode::Primary
    } else {
        DisplayMode::Selected
    };
    set_connector(&mut config, "gnome", form.gnome_connector.as_str());
    set_connector(&mut config, "plasma", form.plasma_connector.as_str());
    config.geometry.edge = if form.edge == 0 {
        Edge::Top
    } else if form.edge == 1 {
        Edge::Bottom
    } else if form.edge == 2 {
        Edge::Left
    } else {
        Edge::Right
    };
    config.geometry.length_mode = if form.length_mode == 0 {
        LengthMode::Fit
    } else if form.length_mode == 1 {
        LengthMode::Expand
    } else {
        LengthMode::Custom
    };
    config.geometry.custom_length_percent = form.custom_length_percent;
    config.geometry.alignment = if form.alignment == 0 {
        Alignment::Start
    } else if form.alignment == 1 {
        Alignment::Center
    } else {
        Alignment::End
    };
    config.geometry.icon_size = form.icon_size;
    config.behavior.visibility = if form.visibility == 0 {
        Visibility::Fixed
    } else if form.visibility == 1 {
        Visibility::Autohide
    } else {
        Visibility::Dodge
    };
    config.behavior.reveal_delay_ms = form.reveal_delay_ms;
    config.behavior.hide_delay_ms = form.hide_delay_ms;
    config.behavior.shortcut = form.shortcut.clone();
    config.appearance.color_scheme = if form.color_scheme == 0 {
        ColorScheme::System
    } else if form.color_scheme == 1 {
        ColorScheme::Light
    } else {
        ColorScheme::Dark
    };
    config.appearance.accent = if text_eq_ignore_ascii_case(form.accent.as_str(), "system") {
        Accent::System
    } else {
        Accent::Custom(form.accent.clone())
    };
    config.appearance.opacity_percent = form.opacity_percent;
    config.appearance.corner_radius = form.corner_radius;
    match config.validate() {
        Ok(()) => Ok(config),
        Err(e) => Err(e.describe()),
    }
}

} // verus!
