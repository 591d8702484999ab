//! The schema-v1 dock configuration, its defaults and its validation rules.

use vstd::prelude::*;

use crate::text::{
    chars_of, char_is_control, decimal, decimal_text, ends_with, has_char, has_control,
    has_double_dot, is_ascii_hex_digit, is_control, is_blank, text_equals, text_is_blank,
};

verus! {

/// The only configuration schema version this library reads and writes.
pub const SCHEMA_VERSION: u32 = 1;

/// Which display the dock is placed on.
#[derive(Debug, Clone, Copy, PartialEq, Eq, Structural)]
pub enum DisplayMode {
    Primary,
    Selected,
}

/// Display placement: the mode and, per adapter, the selected connector.
///
/// `connector_by_adapter` holds `(adapter, connector)` pairs; the configuration rules
/// allow at most one pair per adapter.
#[derive(Debug, Clone, PartialEq, Eq)]
pub struct DisplayConfig {
    pub mode: DisplayMode,
    pub connector_by_adapter: Vec<(String, String)>,
}

/// The screen edge the dock is anchored to.
#[derive(Debug, Clone, Copy, PartialEq, Eq, Structural)]
pub enum Edge {
    Top,
    Bottom,
    Left,
    Right,
}

/// How the dock's length is chosen.
#[derive(Debug, Clone, Copy, PartialEq, Eq, Structural)]
pub enum LengthMode {
    Fit,
    Expand,
    Custom,
}

/// Where the dock sits along its edge.
#[derive(Debug, Clone, Copy, PartialEq, Eq, Structural)]
pub enum Alignment {
    Start,
    Center,
    End,
}

/// Position and size of the dock.
#[derive(Debug, Clone, Copy, PartialEq, Eq, Structural)]
pub struct Geometry {
    pub edge: Edge,
    pub length_mode: LengthMode,
    pub custom_length_percent: u8,
    pub alignment: Alignment,
    pub icon_size: u8,
}

/// When the dock is shown.
#[derive(Debug, Clone, Copy, PartialEq, Eq, Structural)]
pub enum Visibility {
    Fixed,
    Autohide,
    Dodge,
}

/// Visibility behaviour and the reveal shortcut.
#[derive(Debug, Clone, PartialEq, Eq)]
pub struct Behavior {
    pub visibility: Visibility,
    pub reveal_delay_ms: u16,
    pub hide_delay_ms: u16,
    pub shortcut: String,
}

/// Light, dark or desktop-provided colours.
#[derive(Debug, Clone, Copy, PartialEq, Eq, Structural)]
pub enum ColorScheme {
    System,
    Light,
    Dark,
}

/// The accent colour: the desktop's, or a custom `#RRGGBB` colour.
#[derive(Debug, Clone, PartialEq, Eq)]
pub enum Accent {
    System,
    Custom(String),
}

/// Surface appearance.
#[derive(Debug, Clone, PartialEq, Eq)]
pub struct Appearance {
    pub color_scheme: ColorScheme,
    pub accent: Accent,
    pub opacity_percent: u8,
    pub corner_radius: u8,
}

/// The whole dock configuration.
#[derive(Debug, Clone, PartialEq, Eq)]
pub struct Config {
    pub schema_version: u32,
    pub seeded: bool,
    pub favorites: Vec<String>,
    pub display: DisplayConfig,
    pub geometry: Geometry,
    pub behavior: Behavior,
    pub appearance: Appearance,
}

/// Mathematical value of a [`DisplayConfig`].
pub ghost struct DisplayConfigView {
    pub mode: DisplayMode,
    pub connectors: Seq<(Seq<char>, Seq<char>)>,
}

/// Mathematical value of a [`Behavior`].
pub ghost struct BehaviorView {
    pub visibility: Visibility,
    pub reveal_delay_ms: u16,
    pub hide_delay_ms: u16,
    pub shortcut: Seq<char>,
}

/// Mathematical value of an [`Accent`].
pub ghost enum AccentView {
    System,
    Custom(Seq<char>),
}

/// Mathematical value of an [`Appearance`].
pub ghost struct AppearanceView {
    pub color_scheme: ColorScheme,
    pub accent: AccentView,
    pub opacity_percent: u8,
    pub corner_radius: u8,
}

/// Mathematical value of a [`Config`].
pub ghost struct ConfigView {
    pub schema_version: u32,
    pub seeded: bool,
    pub favorites: Seq<Seq<char>>,
    pub display: DisplayConfigView,
    pub geometry: Geometry,
    pub behavior: BehaviorView,
    pub appearance: AppearanceView,
}

impl View for DisplayConfig {
    type V = DisplayConfigView;

    open spec fn view(&self) -> DisplayConfigView {
        DisplayConfigView {
            mode: self.mode,
            connectors: self.connector_by_adapter@.map_values(
                |p: (String, String)| (p.0@, p.1@),
            ),
        }
    }
}

impl View for Behavior {
    type V = BehaviorView;

    open spec fn view(&self) -> BehaviorView {
        BehaviorView {
            visibility: self.visibility,
            reveal_delay_ms: self.reveal_delay_ms,
            hide_delay_ms: self.hide_delay_ms,
            shortcut: self.shortcut@,
        }
    }
}

impl View for Accent {
    type V = AccentView;

    open spec fn view(&self) -> AccentView {
        match self {
            Accent::System => AccentView::System,
            Accent::Custom(color) => AccentView::Custom(color@),
        }
    }
}

impl View for Appearance {
    type V = AppearanceView;

    open spec fn view(&self) -> AppearanceView {
        AppearanceView {
            color_scheme: self.color_scheme,
            accent: self.accent@,
            opacity_percent: self.opacity_percent,
            corner_radius: self.corner_radius,
        }
    }
}

impl View for Config {
    type V = ConfigView;

    open spec fn view(&self) -> ConfigView {
        ConfigView {
            schema_version: self.schema_version,
            seeded: self.seeded,
            favorites: self.favorites@.map_values(|s: String| s@),
            display: self.display@,
            geometry: self.geometry,
            behavior: self.behavior@,
            appearance: self.appearance@,
        }
    }
}

impl ConfigView {
    /// This configuration with its favorites replaced by `favorites`.
    pub open spec fn with_favorites(self, favorites: Seq<Seq<char>>) -> ConfigView {
        ConfigView { favorites, ..self }
    }
}

/// The default display placement: the primary display, no connector selections.
pub open spec fn default_display() -> DisplayConfigView {
    DisplayConfigView { mode: DisplayMode::Primary, connectors: Seq::empty() }
}

/// The default geometry: bottom edge, fit content, 60% custom length, centred, 48 px icons.
pub open spec fn default_geometry() -> Geometry {
    Geometry {
        edge: Edge::Bottom,
        length_mode: LengthMode::Fit,
        custom_length_percent: 60,
        alignment: Alignment::Center,
        icon_size: 48,
    }
}

/// The default behaviour: dodge windows, 160 ms reveal, 300 ms hide, `<Super><Alt>d`.
pub open spec fn default_behavior() -> BehaviorView {
    BehaviorView {
        visibility: Visibility::Dodge,
        reveal_delay_ms: 160,
        hide_delay_ms: 300,
        shortcut: "<Super><Alt>d"@,
    }
}

/// The default appearance: system colours and accent, 88% opacity, 16 px radius.
pub open spec fn default_appearance() -> AppearanceView {
    AppearanceView {
        color_scheme: ColorScheme::System,
        accent: AccentView::System,
        opacity_percent: 88,
        corner_radius: 16,
    }
}

/// The default configuration: current schema, not yet seeded, no favorites.
pub open spec fn default_config() -> ConfigView {
    ConfigView {
        schema_version: SCHEMA_VERSION,
        seeded: false,
        favorites: Seq::empty(),
        display: default_display(),
        geometry: default_geometry(),
        behavior: default_behavior(),
        appearance: default_appearance(),
    }
}

impl Default for DisplayConfig {
    fn default() -> (r: Self)
        ensures
            r@ == default_display(),
    {
        let r = DisplayConfig { mode: DisplayMode::Primary, connector_by_adapter: Vec::new() };
        assert(r@.connectors =~= Seq::<(Seq<char>, Seq<char>)>::empty());
        r
    }
}

impl Default for Geometry {
    fn default() -> (r: Self)
        ensures
            r == default_geometry(),
    {
        Geometry {
            edge: Edge::Bottom,
            length_mode: LengthMode::Fit,
            custom_length_percent: 60,
            alignment: Alignment::Center,
            icon_size: 48,
        }
    }
}

impl Default for Behavior {
    fn default() -> (r: Self)
        ensures
            r@ == default_behavior(),
    {
        Behavior {
            visibility: Visibility::Dodge,
            reveal_delay_ms: 160,
            hide_delay_ms: 300,
            shortcut: String::from_str("<Super><Alt>d"),
        }
    }
}

impl Default for Appearance {
    fn default() -> (r: Self)
        ensures
            r@ == default_appearance(),
    {
        Appearance {
            color_scheme: ColorScheme::System,
            accent: Accent::System,
            opacity_percent: 88,
            corner_radius: 16,
        }
    }
}

impl Default for Config {
    fn default() -> (r: Self)
        ensures
            r@ == default_config(),
    {
        let r = Config {
            schema_version: SCHEMA_VERSION,
            seeded: false,
            favorites: Vec::new(),
            display: DisplayConfig::default(),
            geometry: Geometry::default(),
            behavior: Behavior::default(),
            appearance: Appearance::default(),
        };
        assert(r@.favorites =~= Seq::<Seq<char>>::empty());
        r
    }
}

/// `value` is `#RRGGBB`: a `#` followed by exactly six ASCII hexadecimal digits.
pub open spec fn valid_hex_color(value: Seq<char>) -> bool {
    &&& value.len() == 7
    &&& value[0] == '#'
    &&& forall|i: int| 1 <= i < 7 ==> is_ascii_hex_digit(#[trigger] value[i])
}

/// `value` is a concrete desktop entry identifier that cannot escape an
/// applications directory: non-empty, ending in `.desktop`, without `/`,
/// without `..` and without control characters.
pub open spec fn valid_desktop_id(value: Seq<char>) -> bool {
    &&& value.len() > 0
    &&& ends_with(value, ".desktop"@)
    &&& !has_char(value, '/')
    &&& !has_double_dot(value)
    &&& !has_control(value)
}

/// Every favorite is a safe desktop entry identifier and none occurs twice.
pub open spec fn favorites_ok(favorites: Seq<Seq<char>>) -> bool {
    &&& forall|i: int| 0 <= i < favorites.len() ==> valid_desktop_id(#[trigger] favorites[i])
    &&& favorites.no_duplicates()
}

/// No adapter name and no connector name is blank.
pub open spec fn connectors_ok(connectors: Seq<(Seq<char>, Seq<char>)>) -> bool {
    forall|i: int|
        0 <= i < connectors.len() ==> !is_blank(#[trigger] connectors[i].0) && !is_blank(
            connectors[i].1,
        )
}

/// No adapter has more than one connector recorded.
pub open spec fn adapters_unique(connectors: Seq<(Seq<char>, Seq<char>)>) -> bool {
    forall|i: int, j: int|
        0 <= i < connectors.len() && 0 <= j < connectors.len() && i != j ==> #[trigger] connectors[i].0
            != #[trigger] connectors[j].0
}

/// A custom accent is a `#RRGGBB` colour.
pub open spec fn accent_ok(accent: AccentView) -> bool {
    match accent {
        AccentView::System => true,
        AccentView::Custom(color) => valid_hex_color(color),
    }
}

/// The configuration rules of schema v1.
pub open spec fn config_valid(c: ConfigView) -> bool {
    &&& c.schema_version == SCHEMA_VERSION
    &&& 25 <= c.geometry.custom_length_percent <= 100
    &&& 24 <= c.geometry.icon_size <= 96
    &&& c.behavior.reveal_delay_ms <= 1000
    &&& c.behavior.hide_delay_ms <= 1000
    &&& 60 <= c.appearance.opacity_percent <= 100
    &&& c.appearance.corner_radius <= 24
    &&& accent_ok(c.appearance.accent)
    &&& !is_blank(c.behavior.shortcut)
    &&& connectors_ok(c.display.connectors)
    &&& adapters_unique(c.display.connectors)
    &&& favorites_ok(c.favorites)
}

/// The configuration fields that the rules constrain, in the order they are checked.
pub ghost enum ConfigField {
    SchemaVersion,
    CustomLengthPercent,
    IconSize,
    RevealDelay,
    HideDelay,
    Opacity,
    CornerRadius,
    Accent,
    Shortcut,
    Connectors,
    ConnectorAdapters,
    Favorites,
}

/// The first rule, in checking order, that `c` breaks.
pub open spec fn first_violation(c: ConfigView) -> Option<ConfigField> {
    if c.schema_version != SCHEMA_VERSION {
        Some(ConfigField::SchemaVersion)
    } else if !(25 <= c.geometry.custom_length_percent <= 100) {
        Some(ConfigField::CustomLengthPercent)
    } else if !(24 <= c.geometry.icon_size <= 96) {
        Some(ConfigField::IconSize)
    } else if c.behavior.reveal_delay_ms > 1000 {
        Some(ConfigField::RevealDelay)
    } else if c.behavior.hide_delay_ms > 1000 {
        Some(ConfigField::HideDelay)
    } else if !(60 <= c.appearance.opacity_percent <= 100) {
        Some(ConfigField::Opacity)
    } else if c.appearance.corner_radius > 24 {
        Some(ConfigField::CornerRadius)
    } else if !accent_ok(c.appearance.accent) {
        Some(ConfigField::Accent)
    } else if is_blank(c.behavior.shortcut) {
        Some(ConfigField::Shortcut)
    } else if !connectors_ok(c.display.connectors) {
        Some(ConfigField::Connectors)
    } else if !adapters_unique(c.display.connectors) {
        Some(ConfigField::ConnectorAdapters)
    } else if !favorites_ok(c.favorites) {
        Some(ConfigField::Favorites)
    } else {
        None
    }
}

/// The document path that names a field in error reports.
pub open spec fn field_name(f: ConfigField) -> Seq<char> {
    match f {
        ConfigField::SchemaVersion => "schemaVersion"@,
        ConfigField::CustomLengthPercent => "geometry.customLengthPercent"@,
        ConfigField::IconSize => "geometry.iconSize"@,
        ConfigField::RevealDelay => "behavior.revealDelayMs"@,
        ConfigField::HideDelay => "behavior.hideDelayMs"@,
        ConfigField::Opacity => "appearance.opacityPercent"@,
        ConfigField::CornerRadius => "appearance.cornerRadius"@,
        ConfigField::Accent => "appearance.accent"@,
        ConfigField::Shortcut => "behavior.shortcut"@,
        ConfigField::Connectors => "display.connectorByAdapter"@,
        ConfigField::ConnectorAdapters => "display.connectorByAdapter"@,
        ConfigField::Favorites => "favorites"@,
    }
}

/// The explanation reported for a broken rule of `c`.
pub open spec fn field_message(f: ConfigField, c: ConfigView) -> Seq<char> {
    match f {
        ConfigField::SchemaVersion => "unsupported schema version "@ + decimal(
            c.schema_version as nat,
        ),
        ConfigField::CustomLengthPercent => "must be between 25 and 100"@,
        ConfigField::IconSize => "must be between 24 and 96"@,
        ConfigField::RevealDelay => "must be between 0 and 1000"@,
        ConfigField::HideDelay => "must be between 0 and 1000"@,
        ConfigField::Opacity => "must be between 60 and 100"@,
        ConfigField::CornerRadius => "must be between 0 and 24"@,
        ConfigField::Accent => "custom accent must use #RRGGBB"@,
        ConfigField::Shortcut => "must not be empty"@,
        ConfigField::Connectors => "adapter and connector names must not be empty"@,
        ConfigField::ConnectorAdapters => "each adapter may have only one connector"@,
        ConfigField::Favorites => "favorites must be unique installed desktop entry identifiers"@,
    }
}

/// The default configuration satisfies every configuration rule.
pub proof fn lemma_default_config_valid()
    ensures
        config_valid(default_config()),
{
    reveal_strlit("<Super><Alt>d");
    assert(!is_blank("<Super><Alt>d"@)) by {
        assert(!crate::text::is_white_space("<Super><Alt>d"@[0]));
    }
    assert(default_config().favorites.no_duplicates());
}

/// A validation failure: the offending field and why.
#[derive(Debug, Clone, PartialEq, Eq)]
pub struct ConfigError {
    field: String,
    message: String,
}

/// Mathematical value of a [`ConfigError`].
pub ghost struct ConfigErrorView {
    pub field: Seq<char>,
    pub message: Seq<char>,
}

impl View for ConfigError {
    type V = ConfigErrorView;

    closed spec fn view(&self) -> ConfigErrorView {
        ConfigErrorView { field: self.field@, message: self.message@ }
    }
}

/// The error that validation of `c` reports for the broken rule `f`.
pub open spec fn violation_error(f: ConfigField, c: ConfigView) -> ConfigErrorView {
    ConfigErrorView { field: field_name(f), message: field_message(f, c) }
}

/// The text of a validation failure, as it reads in logs and replies.
pub open spec fn config_error_text(e: ConfigErrorView) -> Seq<char> {
    "invalid field "@ + e.field + ": "@ + e.message
}

impl ConfigError {
    fn new(field: &str, message: &str) -> (e: ConfigError)
        ensures
            e@ == (ConfigErrorView { field: field@, message: message@ }),
    {
        ConfigError { field: String::from_str(field), message: String::from_str(message) }
    }

    /// The document path of the offending field, such as `geometry.iconSize`.
    pub fn field(&self) -> (f: &str)
        ensures
            f@ == self@.field,
    {
        self.field.as_str()
    }

    /// Why the field was rejected.
    pub fn message(&self) -> (m: &str)
        ensures
            m@ == self@.message,
    {
        self.message.as_str()
    }

    /// The error as text: `invalid field <field>: <message>`.
    pub fn describe(&self) -> (s: String)
        ensures
            s@ == config_error_text(self@),
    {
        let mut s = String::from_str("invalid field ");
        s.append(self.field.as_str());
        s.append(": ");
        s.append(self.message.as_str());
        s
    }
}

/// Decides whether `value` is `#RRGGBB`.
pub fn is_hex_color(value: &str) -> (b: bool)
    ensures
        b == valid_hex_color(value@),
{
    let cs = chars_of(value);
    if cs.len() != 7 || cs[0] != '#' {
        return false;
    }
    let mut i: usize = 1;
    while i < 7
        invariant
            cs@ == value@,
            cs.len() == 7,
            1 <= i <= 7,
            forall|j: int| 1 <= j < i ==> is_ascii_hex_digit(#[trigger] cs@[j]),
        decreases 7 - i,
    {
        let u = cs[i] as u32;
        if !((0x30 <= u && u <= 0x39) || (0x41 <= u && u <= 0x46) || (0x61 <= u && u <= 0x66)) {
            return false;
        }
        i = i + 1;
    }
    true
}

/// Decides whether `value` is a safe desktop entry identifier.
pub fn is_safe_desktop_id(value: &str) -> (b: bool)
    ensures
        b == valid_desktop_id(value@),
{
    let cs = chars_of(value);
    let suffix = chars_of(".desktop");
    if cs.len() == 0 || cs.len() < suffix.len() {
        return false;
    }
    let start = cs.len() - suffix.len();
    let mut k: usize = 0;
    while k < suffix.len()
        invariant
            cs@ == value@,
            suffix@ == ".desktop"@,
            start == cs.len() - suffix.len(),
            k <= suffix.len(),
            forall|j: int| 0 <= j < k ==> cs@[start + j] == suffix@[j],
        decreases suffix.len() - k,
    {
        if cs[start + k] != suffix[k] {
            assert(value@.subrange(start as int, value@.len() as int)[k as int] != suffix@[k as int]);
            return false;
        }
        k = k + 1;
    }
    assert(value@.subrange(start as int, value@.len() as int) =~= ".desktop"@);
    let mut i: usize = 0;
    while i < cs.len()
        invariant
            cs@ == value@,
            i <= cs.len(),
            forall|j: int| 0 <= j < i ==> cs@[j] != '/',
            forall|j: int| 0 <= j < i ==> !is_control(#[trigger] cs@[j]),
            forall|j: int|
                0 <= j < i && j + 1 < cs.len() ==> !(#[trigger] cs@[j] == '.' && cs@[j + 1] == '.'),
        decreases cs.len() - i,
    {
        let c = cs[i];
        if c == '/' || char_is_control(c) || (c == '.' && i + 1 < cs.len() && cs[i + 1] == '.') {
            return false;
        }
        i = i + 1;
    }
    true
}

impl Config {
    /// Checks the schema-v1 rules in order and reports the first broken one.
    pub fn validate(&self) -> (r: Result<(), ConfigError>)
        ensures
            r is Ok <==> config_valid(self@),
            r is Ok <==> first_violation(self@) is None,
            r matches Err(e) ==> e@ == violation_error(first_violation(self@)->0, self@),
    {
        if self.schema_version != SCHEMA_VERSION {
            let mut message = String::from_str("unsupported schema version ");
            let number = decimal_text(self.schema_version as u64);
            message.append(number.as_str());
            return Err(ConfigError { field: String::from_str("schemaVersion"), message });
        }
        if !(25 <= self.geometry.custom_length_percent && self.geometry.custom_length_percent
            <= 100) {
            return Err(
                ConfigError::new("geometry.customLengthPercent", "must be between 25 and 100"),
            );
        }
        if !(24 <= self.geometry.icon_size && self.geometry.icon_size <= 96) {
            return Err(ConfigError::new("geometry.iconSize", "must be between 24 and 96"));
        }
        if self.behavior.reveal_delay_ms > 1000 {
            return Err(ConfigError::new("behavior.revealDelayMs", "must be between 0 and 1000"));
        }
        if self.behavior.hide_delay_ms > 1000 {
            return Err(ConfigError::new("behavior.hideDelayMs", "must be between 0 and 1000"));
        }
        if !(60 <= self.appearance.opacity_percent && self.appearance.opacity_percent <= 100) {
            return Err(ConfigError::new("appearance.opacityPercent", "must be between 60 and 100"));
        }
        if self.appearance.corner_radius > 24 {
            return Err(ConfigError::new("appearance.cornerRadius", "must be between 0 and 24"));
        }
        if let Accent::Custom(color) = &self.appearance.accent {
            if !is_hex_color(color.as_str()) {
                return Err(
                    ConfigError::new("appearance.accent", "custom accent must use #RRGGBB"),
                );
            }
        }
        if text_is_blank(self.behavior.shortcut.as_str()) {
            return Err(ConfigError::new("behavior.shortcut", "must not be empty"));
        }
        if !connectors_filled(&self.display.connector_by_adapter) {
            return Err(
                ConfigError::new(
                    "display.connectorByAdapter",
                    "adapter and connector names must not be empty",
                ),
            );
        }
        if !adapters_distinct(&self.display.connector_by_adapter) {
            return Err(
                ConfigError::new(
                    "display.connectorByAdapter",
                    "each adapter may have only one connector",
                ),
            );
        }
        if !favorites_unique_and_safe(&self.favorites) {
            return Err(
                ConfigError::new(
                    "favorites",
                    "favorites must be unique installed desktop entry identifiers",
                ),
            );
        }
        Ok(())
    }
}

/// Decides [`connectors_ok`].
fn connectors_filled(connectors: &Vec<(String, String)>) -> (b: bool)
    ensures
        b == connectors_ok(connectors@.map_values(|p: (String, String)| (p.0@, p.1@))),
{
    let ghost view = connectors@.map_values(|p: (String, String)| (p.0@, p.1@));
    let mut i: usize = 0;
    while i < connectors.len()
        invariant
            view == connectors@.map_values(|p: (String, String)| (p.0@, p.1@)),
            i <= connectors.len(),
            forall|j: int|
                0 <= j < i ==> !is_blank(#[trigger] view[j].0) && !is_blank(view[j].1),
        decreases connectors.len() - i,
    {
        let pair = &connectors[i];
        assert(view[i as int] == (pair.0@, pair.1@));
        let key_blank = text_is_blank(pair.0.as_str());
        let value_blank = text_is_blank(pair.1.as_str());
        if key_blank || value_blank {
            assert(view[i as int].0 == pair.0@);
            assert(key_blank == is_blank(pair.0@));
            assert(is_blank(view[i as int].0) || is_blank(view[i as int].1));
            assert(!connectors_ok(view));
            return false;
        }
        i = i + 1;
    }
    true
}

/// Decides [`adapters_unique`].
fn adapters_distinct(connectors: &Vec<(String, String)>) -> (b: bool)
    ensures
        b == adapters_unique(connectors@.map_values(|p: (String, String)| (p.0@, p.1@))),
{
    let ghost view = connectors@.map_values(|p: (String, String)| (p.0@, p.1@));
    let mut i: usize = 0;
    while i < connectors.len()
        invariant
            view == connectors@.map_values(|p: (String, String)| (p.0@, p.1@)),
            i <= connectors.len(),
            forall|j: int, k: int|
                0 <= j < i && 0 <= k < i && j != k ==> #[trigger] view[j].0 != #[trigger] view[k].0,
        decreases connectors.len() - i,
    {
        assert(view[i as int].0 == connectors@[i as int].0@);
        let mut k: usize = 0;
        while k < i
            invariant
                view == connectors@.map_values(|p: (String, String)| (p.0@, p.1@)),
                i < connectors.len(),
                k <= i,
                forall|j: int| 0 <= j < k ==> #[trigger] view[j].0 != view[i as int].0,
            decreases i - k,
        {
            assert(view[k as int].0 == connectors@[k as int].0@);
            if text_equals(connectors[k].0.as_str(), connectors[i].0.as_str()) {
                assert(view[k as int].0 == view[i as int].0);
                assert(!adapters_unique(view));
                return false;
            }
            k = k + 1;
        }
        i = i + 1;
    }
    true
}

/// Decides [`favorites_ok`].
fn favorites_unique_and_safe(favorites: &Vec<String>) -> (b: bool)
    ensures
        b == favorites_ok(favorites@.map_values(|s: String| s@)),
{
    let ghost view = favorites@.map_values(|s: String| s@);
    let mut i: usize = 0;
    while i < favorites.len()
        invariant
            view == favorites@.map_values(|s: String| s@),
            i <= favorites.len(),
            forall|j: int| 0 <= j < i ==> valid_desktop_id(#[trigger] view[j]),
            forall|j: int, k: int| 0 <= j < i && 0 <= k < i && j != k ==> view[j] != view[k],
        decreases favorites.len() - i,
    {
        assert(view[i as int] == favorites@[i as int]@);
        if !is_safe_desktop_id(favorites[i].as_str()) {
            assert(!valid_desktop_id(view[i as int]));
            return false;
        }
        let mut k: usize = 0;
        while k < i
            invariant
                view == favorites@.map_values(|s: String| s@),
                i < favorites.len(),
                k <= i,
                forall|j: int| 0 <= j < k ==> view[j] != view[i as int],
            decreases i - k,
        {
            assert(view[k as int] == favorites@[k as int]@);
            if text_equals(favorites[k].as_str(), favorites[i].as_str()) {
                assert(view[k as int] == view[i as int]);
                assert(!view.no_duplicates());
                return false;
            }
            k = k + 1;
        }
        i = i + 1;
    }
    true
}

} // verus!
