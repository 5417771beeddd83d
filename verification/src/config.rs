//! Configuration types and their compiled-in defaults.
//!
//! The configuration file (`$XDG_CONFIG_HOME/capsule/config.toml`, fallback
//! `~/.capsule/config.toml`) is read and parsed by the caller; this module
//! holds the settings, their defaults, how partially given styles are
//! completed, the validation of custom module sources, and how each setting
//! turns into a prompt [`Segment`].
use vstd::prelude::*;

use crate::path::{CompKind, components, path_components};
use crate::render::segment::{Connector, Icon, Segment};
use crate::render::style::{Color, ColorMap, Style, default_color_map, paint_spec, paintable, plain_style};
use crate::pattern::{regex_compile_error, regex_error};
use crate::text::{chars_of, push_str_chars, string_from_chars};

verus! {

/// A partially specified prompt style override.
#[derive(Debug, Clone, Copy, PartialEq, Eq, Structural)]
pub struct StyleConfig {
    /// Optional symbolic foreground color.
    pub fg: Option<Color>,
    /// Optional bold override.
    pub bold: Option<bool>,
    /// Optional dimmed override.
    pub dimmed: Option<bool>,
}

impl Default for StyleConfig {
    fn default() -> (r: Self)
        ensures
            r == (StyleConfig { fg: None, bold: None, dimmed: None }),
    {
        StyleConfig { fg: None, bold: None, dimmed: None }
    }
}

/// The first of two options that is set.
pub open spec fn or_else<T>(a: Option<T>, b: Option<T>) -> Option<T> {
    if a is Some { a } else { b }
}

/// `base` with the overrides of `sc` applied: a given color replaces the
/// base color, and `Some(true)` turns bold or dimmed on.
pub open spec fn resolve_spec(sc: StyleConfig, base: Style) -> Style {
    Style {
        fg: if sc.fg is Some { sc.fg } else { base.fg },
        bold: base.bold || sc.bold == Some(true),
        dimmed: base.dimmed || sc.dimmed == Some(true),
    }
}

/// The style that a configuration gives on its own.
pub open spec fn prompt_style_spec(sc: StyleConfig) -> Style {
    resolve_spec(sc, plain_style())
}

impl StyleConfig {
    /// Returns a `StyleConfig` with only foreground color set.
    pub fn fg(color: Color) -> (r: Self)
        ensures
            r == (StyleConfig { fg: Some(color), bold: None, dimmed: None }),
    {
        StyleConfig { fg: Some(color), bold: None, dimmed: None }
    }

    /// Returns a `StyleConfig` with foreground color and bold enabled.
    pub fn fg_bold(color: Color) -> (r: Self)
        ensures
            r == (StyleConfig { fg: Some(color), bold: Some(true), dimmed: None }),
    {
        StyleConfig { fg: Some(color), bold: Some(true), dimmed: None }
    }

    /// Fills in `None` fields from `defaults`, leaving explicitly set fields unchanged.
    pub fn merge_with(self, defaults: Self) -> (r: Self)
        ensures
            r == (StyleConfig {
                fg: or_else(self.fg, defaults.fg),
                bold: or_else(self.bold, defaults.bold),
                dimmed: or_else(self.dimmed, defaults.dimmed),
            }),
    {
        StyleConfig {
            fg: if self.fg.is_some() { self.fg } else { defaults.fg },
            bold: if self.bold.is_some() { self.bold } else { defaults.bold },
            dimmed: if self.dimmed.is_some() { self.dimmed } else { defaults.dimmed },
        }
    }

    /// Applies this override to `base`.
    pub fn resolve(&self, base: Style) -> (r: Style)
        ensures
            r == resolve_spec(*self, base),
    {
        let mut style = base;
        if let Some(color) = self.fg {
            style = style.fg(color);
        }
        if self.bold == Some(true) {
            style = style.bold();
        }
        if self.dimmed == Some(true) {
            style = style.dimmed();
        }
        style
    }
}

/// A segment holding `content` under `style`, with no connector or icon.
pub open spec fn styled_segment(s: Segment, content: Seq<char>, style: Style) -> bool {
    &&& s.content@ == content
    &&& s.connector is None
    &&& s.icon is None
    &&& s.content_style == Some(style)
}

/// Per-keymap character override (glyph and optional style).
///
/// When `style` is `Some`, it is used regardless of exit code; when `None`,
/// the parent [`CharacterConfig`]'s success or error style is used.
#[derive(Debug, Clone, PartialEq, Eq)]
pub struct CharacterModeConfig {
    /// The glyph displayed in this mode (default: `❮`).
    pub glyph: String,
    /// Fixed style for this mode (exit code independent).
    pub style: Option<StyleConfig>,
}

impl Default for CharacterModeConfig {
    fn default() -> (r: Self)
        ensures
            r.glyph@ == seq!['\u{276e}'],
            r.style is None,
    {
        let mut glyph = String::new();
        crate::text::push_char(&mut glyph, '\u{276e}');
        CharacterModeConfig { glyph, style: None }
    }
}

/// Character prompt settings.
#[derive(Debug, Clone, PartialEq, Eq)]
pub struct CharacterConfig {
    /// Whether the character module is disabled.
    pub disabled: bool,
    /// The prompt character glyph.
    pub glyph: String,
    /// Style for the success glyph (last command succeeded).
    pub success_style: StyleConfig,
    /// Style for the error glyph (last command failed).
    pub error_style: StyleConfig,
    /// Vi command mode override.
    pub vicmd: CharacterModeConfig,
}

/// The style of the glyph after a command that exited with `exit_code`.
pub open spec fn exit_style_spec(c: CharacterConfig, exit_code: i32) -> Style {
    if exit_code == 0 {
        prompt_style_spec(c.success_style)
    } else {
        prompt_style_spec(c.error_style)
    }
}

impl Default for CharacterConfig {
    fn default() -> (r: Self)
        ensures
            !r.disabled,
            r.glyph@ == seq!['\u{276f}'],
            r.success_style == (StyleConfig { fg: Some(Color::Green), bold: Some(true), dimmed: None }),
            r.error_style == (StyleConfig { fg: Some(Color::Red), bold: Some(true), dimmed: None }),
            r.vicmd.glyph@ == seq!['\u{276e}'],
            r.vicmd.style is None,
    {
        let mut glyph = String::new();
        crate::text::push_char(&mut glyph, '\u{276f}');
        CharacterConfig {
            disabled: false,
            glyph,
            success_style: StyleConfig::fg_bold(Color::Green),
            error_style: StyleConfig::fg_bold(Color::Red),
            vicmd: CharacterModeConfig::default(),
        }
    }
}

impl CharacterConfig {
    /// Style of the glyph after a successful command.
    pub fn success_prompt_style(&self) -> (r: Style)
        ensures
            r == prompt_style_spec(self.success_style),
    {
        self.success_style.resolve(Style::new())
    }

    /// Style of the glyph after a failed command.
    pub fn error_prompt_style(&self) -> (r: Style)
        ensures
            r == prompt_style_spec(self.error_style),
    {
        self.error_style.resolve(Style::new())
    }

    /// Resolve prompt style based on the last command's exit code.
    pub fn exit_style(&self, exit_code: i32) -> (r: Style)
        ensures
            r == exit_style_spec(*self, exit_code),
    {
        if exit_code == 0 {
            self.success_prompt_style()
        } else {
            self.error_prompt_style()
        }
    }

    /// Build a [`Segment`] for the character glyph, styled by exit code.
    pub fn to_segment(&self, glyph: &str, exit_code: i32) -> (r: Segment)
        ensures
            styled_segment(r, glyph@, exit_style_spec(*self, exit_code)),
    {
        Segment {
            content: glyph.to_owned(),
            connector: None,
            icon: None,
            content_style: Some(self.exit_style(exit_code)),
        }
    }

    /// Build a [`Segment`] for a keymap mode override: the mode's own style
    /// when it has one, else the success or error style by exit code.
    pub fn mode_segment(&self, mode: &CharacterModeConfig, exit_code: i32) -> (r: Segment)
        ensures
            styled_segment(
                r,
                mode.glyph@,
                match mode.style {
                    Some(s) => prompt_style_spec(s),
                    None => exit_style_spec(*self, exit_code),
                },
            ),
    {
        let style = match &mode.style {
            Some(s) => s.resolve(Style::new()),
            None => self.exit_style(exit_code),
        };
        Segment {
            content: mode.glyph.as_str().to_owned(),
            connector: None,
            icon: None,
            content_style: Some(style),
        }
    }

    /// Completes partially given styles from the defaults.
    pub fn merge_style_defaults(self) -> (r: Self)
        ensures
            r.success_style == self.success_style.merge_with_spec(
                StyleConfig { fg: Some(Color::Green), bold: Some(true), dimmed: None },
            ),
            r.error_style == self.error_style.merge_with_spec(
                StyleConfig { fg: Some(Color::Red), bold: Some(true), dimmed: None },
            ),
            r.disabled == self.disabled,
            r.glyph == self.glyph,
            r.vicmd == self.vicmd,
    {
        let defaults = CharacterConfig::default();
        let mut s = self;
        s.success_style = s.success_style.merge_with(defaults.success_style);
        s.error_style = s.error_style.merge_with(defaults.error_style);
        s
    }
}

impl StyleConfig {
    /// What [`StyleConfig::merge_with`] returns.
    pub open spec fn merge_with_spec(self, defaults: Self) -> Self {
        StyleConfig {
            fg: or_else(self.fg, defaults.fg),
            bold: or_else(self.bold, defaults.bold),
            dimmed: or_else(self.dimmed, defaults.dimmed),
        }
    }
}

/// Directory module settings.
#[derive(Debug, Clone, Copy, PartialEq, Eq, Structural)]
pub struct DirectoryConfig {
    /// Whether the directory module is disabled.
    pub disabled: bool,
    /// Style for the directory path.
    pub style: StyleConfig,
    /// Style for the readonly lock indicator.
    pub read_only_style: StyleConfig,
}

/// Bold cyan path, red lock.
pub open spec fn default_directory_config() -> DirectoryConfig {
    DirectoryConfig {
        disabled: false,
        style: StyleConfig { fg: Some(Color::Cyan), bold: Some(true), dimmed: None },
        read_only_style: StyleConfig { fg: Some(Color::Red), bold: None, dimmed: None },
    }
}

impl Default for DirectoryConfig {
    fn default() -> (r: Self)
        ensures
            r == default_directory_config(),
    {
        DirectoryConfig {
            disabled: false,
            style: StyleConfig::fg_bold(Color::Cyan),
            read_only_style: StyleConfig::fg(Color::Red),
        }
    }
}

/// The lock glyph shown after a read-only directory.
pub open spec fn lock_glyph() -> Seq<char> {
    seq!['\u{f023}']
}

impl DirectoryConfig {
    /// Style of the directory path.
    pub fn prompt_style(&self) -> (r: Style)
        ensures
            r == prompt_style_spec(self.style),
    {
        self.style.resolve(Style::new())
    }

    /// Style of the read-only lock glyph.
    pub fn read_only_prompt_style(&self) -> (r: Style)
        ensures
            r == prompt_style_spec(self.read_only_style),
    {
        self.read_only_style.resolve(Style::new())
    }

    /// Build a [`Segment`] for the directory path.
    ///
    /// When `read_only` is true, the content is pre-styled (the painted
    /// path, a space and the painted lock glyph), so `content_style` is `None`.
    pub fn to_segment(&self, dir: &str, read_only: bool, color_map: ColorMap) -> (r: Segment)
        requires
            read_only ==> paintable(prompt_style_spec(self.style), color_map),
            read_only ==> paintable(prompt_style_spec(self.read_only_style), color_map),
        ensures
            read_only ==> (r.content@ == paint_spec(prompt_style_spec(self.style), dir@, color_map)
                + seq![' '] + paint_spec(prompt_style_spec(self.read_only_style), lock_glyph(), color_map)
                && r.connector is None && r.icon is None && r.content_style is None),
            !read_only ==> styled_segment(r, dir@, prompt_style_spec(self.style)),
    {
        if read_only {
            let dir_style = self.prompt_style();
            let lock_style = self.read_only_prompt_style();
            let mut lock = String::new();
            crate::text::push_char(&mut lock, '\u{f023}');
            let a = dir_style.paint_with(dir, color_map);
            let b = lock_style.paint_with(lock.as_str(), color_map);
            let mut out: Vec<char> = Vec::new();
            push_str_chars(&mut out, a.as_str());
            out.push(' ');
            push_str_chars(&mut out, b.as_str());
            Segment { content: string_from_chars(&out), connector: None, icon: None, content_style: None }
        } else {
            Segment {
                content: dir.to_owned(),
                connector: None,
                icon: None,
                content_style: Some(self.prompt_style()),
            }
        }
    }

    /// Completes partially given styles from the defaults.
    pub fn merge_style_defaults(self) -> (r: Self)
        ensures
            r == (DirectoryConfig {
                style: self.style.merge_with_spec(default_directory_config().style),
                read_only_style: self.read_only_style.merge_with_spec(
                    default_directory_config().read_only_style,
                ),
                ..self
            }),
    {
        let defaults = DirectoryConfig::default();
        DirectoryConfig {
            style: self.style.merge_with(defaults.style),
            read_only_style: self.read_only_style.merge_with(defaults.read_only_style),
            ..self
        }
    }
}

/// A connector word with its style.
pub open spec fn connector_is(c: Option<Connector>, word: Seq<char>, style: Style) -> bool {
    c matches Some(x) && x.word@ == word && x.style == style
}

/// Git module settings.
#[derive(Debug, Clone, PartialEq, Eq)]
pub struct GitConfig {
    /// Whether the git module is disabled.
    pub disabled: bool,
    /// Nerd Font icon glyph for git branch.
    pub icon: String,
    /// Connector word before the git segment (e.g., `"on"`).
    pub connector: String,
    /// Style for the branch text and icon.
    pub style: StyleConfig,
    /// Style for status indicators (e.g., `[!+]`).
    pub indicator_style: StyleConfig,
    /// Style for operation state labels (e.g., `(REBASING 2/5)`).
    pub state_style: StyleConfig,
    /// Style for `(hash)` in detached `HEAD (hash)` output.
    pub detached_hash_style: StyleConfig,
}

impl Default for GitConfig {
    fn default() -> (r: Self)
        ensures
            !r.disabled,
            r.icon@ == seq!['\u{f418}'],
            r.connector@ == "on"@,
            r.style == (StyleConfig { fg: Some(Color::Magenta), bold: Some(true), dimmed: None }),
            r.indicator_style == (StyleConfig { fg: Some(Color::Red), bold: Some(true), dimmed: None }),
            r.detached_hash_style == (StyleConfig { fg: Some(Color::Green), bold: Some(true), dimmed: None }),
            r.state_style == (StyleConfig { fg: Some(Color::Yellow), bold: Some(true), dimmed: None }),
    {
        let mut icon = String::new();
        crate::text::push_char(&mut icon, '\u{f418}');
        GitConfig {
            disabled: false,
            icon,
            connector: "on".to_owned(),
            style: StyleConfig::fg_bold(Color::Magenta),
            indicator_style: StyleConfig::fg_bold(Color::Red),
            detached_hash_style: StyleConfig::fg_bold(Color::Green),
            state_style: StyleConfig::fg_bold(Color::Yellow),
        }
    }
}

impl GitConfig {
    /// Style of the branch text and icon.
    pub fn prompt_style(&self) -> (r: Style)
        ensures
            r == prompt_style_spec(self.style),
    {
        self.style.resolve(Style::new())
    }

    /// Style of the status indicators.
    pub fn indicator_prompt_style(&self) -> (r: Style)
        ensures
            r == prompt_style_spec(self.indicator_style),
    {
        self.indicator_style.resolve(Style::new())
    }

    /// Style of the detached-head hash.
    pub fn detached_hash_prompt_style(&self) -> (r: Style)
        ensures
            r == prompt_style_spec(self.detached_hash_style),
    {
        self.detached_hash_style.resolve(Style::new())
    }

    /// Style of the operation state label.
    pub fn state_prompt_style(&self) -> (r: Style)
        ensures
            r == prompt_style_spec(self.state_style),
    {
        self.state_style.resolve(Style::new())
    }

    /// The styles the git module renders with under this configuration.
    pub fn git_styles(&self, color_map: ColorMap) -> (r: crate::module::git::GitStyles)
        ensures
            r.branch == prompt_style_spec(self.style),
            r.indicator == prompt_style_spec(self.indicator_style),
            r.detached_hash == prompt_style_spec(self.detached_hash_style),
            r.state == prompt_style_spec(self.state_style),
            r.color_map == color_map,
    {
        crate::module::git::GitStyles {
            branch: self.prompt_style(),
            detached_hash: self.detached_hash_prompt_style(),
            indicator: self.indicator_prompt_style(),
            state: self.state_prompt_style(),
            color_map,
        }
    }

    /// Build a [`Segment`] for git status output (already styled by the git module).
    pub fn to_segment(&self, git_output: &str, connector_style: Style) -> (r: Segment)
        ensures
            r.content@ == git_output@,
            connector_is(r.connector, self.connector@, connector_style),
            r.icon matches Some(i) && i.glyph@ == self.icon@ && i.style == prompt_style_spec(self.style),
            r.content_style is None,
    {
        Segment {
            content: git_output.to_owned(),
            connector: Some(Connector { word: self.connector.as_str().to_owned(), style: connector_style }),
            icon: Some(Icon { glyph: self.icon.as_str().to_owned(), style: self.prompt_style() }),
            content_style: None,
        }
    }

    /// Completes partially given styles from the defaults.
    pub fn merge_style_defaults(self) -> (r: Self)
        ensures
            r.style == self.style.merge_with_spec(
                StyleConfig { fg: Some(Color::Magenta), bold: Some(true), dimmed: None },
            ),
            r.indicator_style == self.indicator_style.merge_with_spec(
                StyleConfig { fg: Some(Color::Red), bold: Some(true), dimmed: None },
            ),
            r.state_style == self.state_style.merge_with_spec(
                StyleConfig { fg: Some(Color::Yellow), bold: Some(true), dimmed: None },
            ),
            r.detached_hash_style == self.detached_hash_style.merge_with_spec(
                StyleConfig { fg: Some(Color::Green), bold: Some(true), dimmed: None },
            ),
            r.disabled == self.disabled,
            r.icon == self.icon,
            r.connector == self.connector,
    {
        let defaults = GitConfig::default();
        let mut s = self;
        s.style = s.style.merge_with(defaults.style);
        s.indicator_style = s.indicator_style.merge_with(defaults.indicator_style);
        s.state_style = s.state_style.merge_with(defaults.state_style);
        s.detached_hash_style = s.detached_hash_style.merge_with(defaults.detached_hash_style);
        s
    }
}

/// Supported time display formats.
#[derive(Debug, Clone, Copy, PartialEq, Eq, Structural)]
pub enum TimeFormat {
    /// `HH:MM:SS` — hours, minutes, seconds.
    WithSeconds,
    /// `HH:MM` — hours and minutes only.
    WithoutSeconds,
}

/// The name of a time format as written in the configuration.
pub open spec fn time_format_name(f: TimeFormat) -> Seq<char> {
    match f {
        TimeFormat::WithSeconds => "HH:MM:SS"@,
        TimeFormat::WithoutSeconds => "HH:MM"@,
    }
}

impl TimeFormat {
    /// Whether seconds should be shown.
    pub fn show_seconds(self) -> (r: bool)
        ensures
            r == (self == TimeFormat::WithSeconds),
    {
        match self {
            TimeFormat::WithSeconds => true,
            TimeFormat::WithoutSeconds => false,
        }
    }

    /// The format's name (`HH:MM:SS` or `HH:MM`).
    pub fn to_string(&self) -> (r: String)
        ensures
            r@ == time_format_name(*self),
    {
        match self {
            TimeFormat::WithSeconds => "HH:MM:SS".to_owned(),
            TimeFormat::WithoutSeconds => "HH:MM".to_owned(),
        }
    }

    /// The format named `value`, if any.
    pub fn parse(value: &str) -> (r: Option<TimeFormat>)
        ensures
            match r {
                Some(f) => time_format_name(f) == value@,
                None => value@ != "HH:MM:SS"@ && value@ != "HH:MM"@,
            },
    {
        if crate::text::str_eq(value, "HH:MM:SS") {
            Some(TimeFormat::WithSeconds)
        } else if crate::text::str_eq(value, "HH:MM") {
            Some(TimeFormat::WithoutSeconds)
        } else {
            None
        }
    }
}

/// Time module settings.
#[derive(Debug, Clone, PartialEq, Eq)]
pub struct TimeConfig {
    /// Whether the time module is disabled.
    pub disabled: bool,
    /// Time format.
    pub format: TimeFormat,
    /// Connector word before the time segment (e.g., `"at"`).
    pub connector: String,
    /// Style for the time segment.
    pub style: StyleConfig,
}

impl Default for TimeConfig {
    fn default() -> (r: Self)
        ensures
            r.disabled,
            r.format == TimeFormat::WithSeconds,
            r.connector@ == "at"@,
            r.style == (StyleConfig { fg: Some(Color::Yellow), bold: Some(true), dimmed: None }),
    {
        TimeConfig {
            disabled: true,
            format: TimeFormat::WithSeconds,
            connector: "at".to_owned(),
            style: StyleConfig::fg_bold(Color::Yellow),
        }
    }
}

impl TimeConfig {
    /// Whether seconds should be shown in the time output.
    pub fn show_seconds(&self) -> (r: bool)
        ensures
            r == (self.format == TimeFormat::WithSeconds),
    {
        self.format.show_seconds()
    }

    /// Style of the time segment.
    pub fn prompt_style(&self) -> (r: Style)
        ensures
            r == prompt_style_spec(self.style),
    {
        self.style.resolve(Style::new())
    }

    /// Build a [`Segment`] for the time display.
    pub fn to_segment(&self, time_str: &str, connector_style: Style) -> (r: Segment)
        ensures
            r.content@ == time_str@,
            connector_is(r.connector, self.connector@, connector_style),
            r.icon is None,
            r.content_style == Some(prompt_style_spec(self.style)),
    {
        Segment {
            content: time_str.to_owned(),
            connector: Some(Connector { word: self.connector.as_str().to_owned(), style: connector_style }),
            icon: None,
            content_style: Some(self.prompt_style()),
        }
    }

    /// Completes a partially given style from the default.
    pub fn merge_style_defaults(self) -> (r: Self)
        ensures
            r.style == self.style.merge_with_spec(
                StyleConfig { fg: Some(Color::Yellow), bold: Some(true), dimmed: None },
            ),
            r.disabled == self.disabled,
            r.format == self.format,
            r.connector == self.connector,
    {
        let defaults = TimeConfig::default();
        let mut s = self;
        s.style = s.style.merge_with(defaults.style);
        s
    }
}

/// Command duration module settings.
#[derive(Debug, Clone, PartialEq, Eq)]
pub struct CmdDurationConfig {
    /// Whether the command duration module is disabled.
    pub disabled: bool,
    /// Minimum duration in milliseconds before showing the segment.
    pub threshold_ms: u64,
    /// Connector word before the duration segment (e.g., `"took"`).
    pub connector: String,
    /// Style for the duration segment.
    pub style: StyleConfig,
}

impl Default for CmdDurationConfig {
    fn default() -> (r: Self)
        ensures
            !r.disabled,
            r.threshold_ms == 2000,
            r.connector@ == "took"@,
            r.style == (StyleConfig { fg: Some(Color::Yellow), bold: Some(true), dimmed: None }),
    {
        CmdDurationConfig {
            disabled: false,
            threshold_ms: 2000,
            connector: "took".to_owned(),
            style: StyleConfig::fg_bold(Color::Yellow),
        }
    }
}

impl CmdDurationConfig {
    /// Style of the duration segment.
    pub fn prompt_style(&self) -> (r: Style)
        ensures
            r == prompt_style_spec(self.style),
    {
        self.style.resolve(Style::new())
    }

    /// Build a [`Segment`] for the command duration display.
    pub fn to_segment(&self, duration_str: &str, connector_style: Style) -> (r: Segment)
        ensures
            r.content@ == duration_str@,
            connector_is(r.connector, self.connector@, connector_style),
            r.icon is None,
            r.content_style == Some(prompt_style_spec(self.style)),
    {
        Segment {
            content: duration_str.to_owned(),
            connector: Some(Connector { word: self.connector.as_str().to_owned(), style: connector_style }),
            icon: None,
            content_style: Some(self.prompt_style()),
        }
    }

    /// Completes a partially given style from the default.
    pub fn merge_style_defaults(self) -> (r: Self)
        ensures
            r.style == self.style.merge_with_spec(
                StyleConfig { fg: Some(Color::Yellow), bold: Some(true), dimmed: None },
            ),
            r.disabled == self.disabled,
            r.threshold_ms == self.threshold_ms,
            r.connector == self.connector,
    {
        let defaults = CmdDurationConfig::default();
        let mut s = self;
        s.style = s.style.merge_with(defaults.style);
        s
    }
}

/// A regex pattern that compiles (checked when read from the configuration).
#[derive(Debug, Clone, PartialEq, Eq)]
pub struct RegexPattern(String);

impl RegexPattern {
    /// The pattern text.
    pub closed spec fn text(&self) -> Seq<char> {
        self.0@
    }

    /// Create from a known-valid pattern string (no validation).
    pub fn new_unchecked(s: String) -> (r: Self)
        ensures
            r.text() == s@,
    {
        RegexPattern(s)
    }

    /// Returns the pattern string.
    pub fn as_str(&self) -> (r: &str)
        ensures
            r@ == self.text(),
    {
        self.0.as_str()
    }

    /// Checks that `s` compiles; otherwise the error is `invalid regex: ` and
    /// the compiler's message.
    pub fn parse(s: String) -> (r: Result<RegexPattern, String>)
        ensures
            match r {
                Ok(p) => regex_compile_error(s@) is None && p.text() == s@,
                Err(m) => regex_compile_error(s@) matches Some(e) && m@ == "invalid regex: "@ + e,
            },
    {
        match regex_error(s.as_str()) {
            None => Ok(RegexPattern(s)),
            Some(e) => {
                let mut out: Vec<char> = Vec::new();
                push_str_chars(&mut out, "invalid regex: ");
                push_str_chars(&mut out, e.as_str());
                Err(string_from_chars(&out))
            },
        }
    }
}

/// Prompt line placement for a custom module.
#[derive(Debug, Clone, Copy, PartialEq, Eq, Structural)]
pub enum ModuleSlot {
    /// Line 1: after git, before command duration (default).
    Line1,
    /// Line 2: before time.
    Line2,
}

impl Default for ModuleSlot {
    fn default() -> (r: Self)
        ensures
            r == ModuleSlot::Line1,
    {
        ModuleSlot::Line1
    }
}

/// Arbitration rule for collapsing competing modules into a single winner.
#[derive(Debug, Clone, PartialEq, Eq)]
pub struct Arbitration {
    /// Group identifier used to decide which modules compete.
    pub group: String,
    /// Lower numbers win within the same group.
    pub priority: u32,
}

/// Conditions that trigger a module.
#[derive(Debug, Clone, PartialEq, Eq)]
pub struct ModuleWhen {
    /// Marker files whose presence in cwd triggers the module.
    pub files: Vec<String>,
    /// Environment variables whose presence triggers the module.
    pub env: Vec<String>,
}

impl Default for ModuleWhen {
    fn default() -> (r: Self)
        ensures
            r.files@.len() == 0,
            r.env@.len() == 0,
    {
        ModuleWhen { files: Vec::new(), env: Vec::new() }
    }
}

/// A single value source within a module definition: exactly one of `env`,
/// `file`, or `command` is set.
#[derive(Debug, Clone, PartialEq, Eq)]
pub struct SourceDef {
    /// Variable name this source contributes to (sources with the same name
    /// form a fallback chain; `value` by default).
    pub name: String,
    /// Read value from an environment variable.
    pub env: Option<String>,
    /// Read value from a file in cwd.
    pub file: Option<String>,
    /// Run a command and use its stdout.
    pub command: Option<Vec<String>>,
    /// Regex applied to the source output; first capture group is the value.
    pub regex: Option<RegexPattern>,
}

/// Why a module source is rejected.
#[derive(Debug, Clone, Copy, PartialEq, Eq, Structural)]
pub enum SourceDefError {
    /// Not exactly one of `env`, `file`, `command` is set.
    SourceCount,
    /// The file is not a relative path of plain components.
    UnsafeFile,
    /// The command has no arguments.
    EmptyCommand,
    /// An argument of the command is empty.
    EmptyArgument,
}

/// The message shown for a rejected source.
pub open spec fn source_error_message(e: SourceDefError) -> Seq<char> {
    match e {
        SourceDefError::SourceCount => "module source must set exactly one of env, file, or command"@,
        SourceDefError::UnsafeFile => "module source file must be a relative path without . or .. components"@,
        SourceDefError::EmptyCommand => "module source command must contain at least one argument"@,
        SourceDefError::EmptyArgument => "module source command arguments must not be empty"@,
    }
}

impl SourceDefError {
    /// The message shown for this error.
    pub fn message(&self) -> (r: String)
        ensures
            r@ == source_error_message(*self),
    {
        match self {
            SourceDefError::SourceCount => "module source must set exactly one of env, file, or command".to_owned(),
            SourceDefError::UnsafeFile => "module source file must be a relative path without . or .. components".to_owned(),
            SourceDefError::EmptyCommand => "module source command must contain at least one argument".to_owned(),
            SourceDefError::EmptyArgument => "module source command arguments must not be empty".to_owned(),
        }
    }
}

/// Whether `path` names a file below the working directory: not empty, and
/// every component a plain name (no root, `.` or `..`).
pub open spec fn safe_relative_path(path: Seq<char>) -> bool {
    path.len() > 0 && forall|k: int|
        0 <= k < components(path).len() ==> (#[trigger] components(path)[k]).0 == CompKind::Normal
}

/// Whether `path` names a file below the working directory.
pub fn is_safe_relative_module_path(path: &str) -> (r: bool)
    ensures
        r == safe_relative_path(path@),
{
    let cs = chars_of(path);
    if cs.len() == 0 {
        return false;
    }
    let comps = path_components(cs.as_slice());
    let mut i: usize = 0;
    while i < comps.len()
        invariant
            i <= comps.len(),
            crate::path::spans_view(comps@) == components(path@),
            cs@ == path@,
            forall|k: int| 0 <= k < i ==> (#[trigger] components(path@)[k]).0 == CompKind::Normal,
        decreases comps.len() - i,
    {
        assert(components(path@)[i as int].0 == comps@[i as int].kind);
        if comps[i].kind != CompKind::Normal {
            return false;
        }
        i = i + 1;
    }
    true
}

/// Whether a source with these fields is accepted, and the first reason it is not.
pub open spec fn source_check(
    env: Option<String>,
    file: Option<String>,
    command: Option<Vec<String>>,
) -> Option<SourceDefError> {
    let count = (if env is Some { 1int } else { 0 }) + (if file is Some { 1int } else { 0 }) + (
    if command is Some { 1int } else { 0 });
    if count != 1 {
        Some(SourceDefError::SourceCount)
    } else if file matches Some(f) && !safe_relative_path(f@) {
        Some(SourceDefError::UnsafeFile)
    } else if command matches Some(args) && args@.len() == 0 {
        Some(SourceDefError::EmptyCommand)
    } else if command matches Some(args) && exists|k: int|
        0 <= k < args@.len() && (#[trigger] args@[k])@.len() == 0 {
        Some(SourceDefError::EmptyArgument)
    } else {
        None
    }
}

impl SourceDef {
    /// Whether this source requires executing an external command.
    pub fn is_command(&self) -> (r: bool)
        ensures
            r == self.command is Some,
    {
        self.command.is_some()
    }

    /// Builds a source from its fields, checking that exactly one of `env`,
    /// `file` and `command` is set, that the file is a safe relative path, and
    /// that the command has arguments, none of them empty.
    pub fn validate(
        name: String,
        env: Option<String>,
        file: Option<String>,
        command: Option<Vec<String>>,
        regex: Option<RegexPattern>,
    ) -> (r: Result<SourceDef, SourceDefError>)
        ensures
            match source_check(env, file, command) {
                Some(e) => r == Err::<SourceDef, SourceDefError>(e),
                None => r matches Ok(d) && d == (SourceDef { name, env, file, command, regex }),
            },
    {
        let count: u8 = (if env.is_some() { 1 } else { 0 }) + (if file.is_some() { 1 } else { 0 }) + (
        if command.is_some() { 1 } else { 0 });
        if count != 1 {
            return Err(SourceDefError::SourceCount);
        }
        if let Some(f) = &file {
            if !is_safe_relative_module_path(f.as_str()) {
                return Err(SourceDefError::UnsafeFile);
            }
        }
        if let Some(args) = &command {
            if args.len() == 0 {
                return Err(SourceDefError::EmptyCommand);
            }
            let mut i: usize = 0;
            while i < args.len()
                invariant
                    i <= args.len(),
                    args@.len() > 0,
                    command == Some(*args),
                    env is None,
                    file is None,
                    forall|k: int| 0 <= k < i ==> (#[trigger] args@[k])@.len() > 0,
                decreases args.len() - i,
            {
                if args[i].as_str().unicode_len() == 0 {
                    assert((args@[i as int])@.len() == 0);
                    return Err(SourceDefError::EmptyArgument);
                }
                i = i + 1;
            }
        }
        Ok(SourceDef { name, env, file, command, regex })
    }
}

/// User-defined prompt module entry from `[[module]]` in config.
#[derive(Debug, Clone, PartialEq, Eq)]
pub struct ModuleDef {
    /// Module identifier (e.g. `"aws"`, `"terraform"`).
    pub name: String,
    /// Conditions that trigger this module.
    pub when: ModuleWhen,
    /// Ordered list of value sources (env, file, command).
    pub source: Vec<SourceDef>,
    /// Format string with `{value}` placeholder.
    pub format: String,
    /// Nerd Font icon glyph.
    pub icon: Option<String>,
    /// Display style (fg, bold, dimmed).
    pub style: StyleConfig,
    /// Connector word before this segment.
    pub connector: Option<String>,
    /// Optional arbitration metadata for collapsing competing modules.
    pub arbitration: Option<Arbitration>,
    /// Prompt line placement.
    pub slot: ModuleSlot,
}

/// The format used when a module gives none.
pub fn default_module_format() -> (r: String)
    ensures
        r@ == "{value}"@,
{
    "{value}".to_owned()
}

/// The variable name used when a source gives none.
pub fn default_source_name() -> (r: String)
    ensures
        r@ == "value"@,
{
    "value".to_owned()
}

/// Timeout settings for module execution.
#[derive(Debug, Clone, Copy, PartialEq, Eq, Structural)]
pub struct TimeoutConfig {
    /// Maximum time in milliseconds to wait for fast modules (env/file).
    pub fast_ms: u64,
    /// Maximum time in milliseconds to wait for slow modules (commands/git).
    pub slow_ms: u64,
}

impl Default for TimeoutConfig {
    fn default() -> (r: Self)
        ensures
            r == (TimeoutConfig { fast_ms: 500, slow_ms: 5000 }),
    {
        TimeoutConfig { fast_ms: 500, slow_ms: 5000 }
    }
}

/// Shared style for connector words between prompt segments.
#[derive(Debug, Clone, Copy, PartialEq, Eq, Structural)]
pub struct ConnectorConfig {
    /// Structured style override for all connector words.
    pub style: StyleConfig,
}

impl Default for ConnectorConfig {
    fn default() -> (r: Self)
        ensures
            r == (ConnectorConfig { style: StyleConfig { fg: None, bold: None, dimmed: None } }),
    {
        ConnectorConfig { style: StyleConfig::default() }
    }
}

impl ConnectorConfig {
    /// Style of connector words.
    pub fn prompt_style(&self) -> (r: Style)
        ensures
            r == prompt_style_spec(self.style),
    {
        self.style.resolve(Style::new())
    }
}

/// Caching strategy for slow module results (git, commands).
#[derive(Debug, Clone, Copy, PartialEq, Eq, Structural)]
pub enum SlowCacheMode {
    /// Do not cache slow module results; always compute fresh.
    Off,
    /// Cache slow module results but revalidate in background on every hit.
    Revalidate,
}

impl Default for SlowCacheMode {
    fn default() -> (r: Self)
        ensures
            r == SlowCacheMode::Revalidate,
    {
        SlowCacheMode::Revalidate
    }
}

/// Cache settings.
#[derive(Debug, Clone, Copy, PartialEq, Eq, Structural)]
pub struct CacheConfig {
    /// Caching strategy for slow modules.
    pub slow: SlowCacheMode,
}

impl Default for CacheConfig {
    fn default() -> (r: Self)
        ensures
            r.slow == SlowCacheMode::Revalidate,
    {
        CacheConfig { slow: SlowCacheMode::default() }
    }
}

/// Top-level configuration.
#[derive(Debug, Clone)]
pub struct Config {
    /// Character module settings.
    pub character: CharacterConfig,
    /// Directory module settings.
    pub directory: DirectoryConfig,
    /// Git module settings.
    pub git: GitConfig,
    /// Time module settings.
    pub time: TimeConfig,
    /// Command duration module settings.
    pub cmd_duration: CmdDurationConfig,
    /// Connector words between segments.
    pub connectors: ConnectorConfig,
    /// Timeout settings for module execution.
    pub timeout: TimeoutConfig,
    /// Mapping from symbolic colors to concrete ANSI foreground codes.
    pub color_map: ColorMap,
    /// Cache settings.
    pub cache: CacheConfig,
    /// User-defined prompt modules (`[[module]]` array).
    pub module: Vec<ModuleDef>,
}

impl Default for Config {
    fn default() -> (r: Self)
        ensures
            r.directory == default_directory_config(),
            !r.character.disabled,
            r.character.glyph@ == seq!['\u{276f}'],
            r.character.success_style == (StyleConfig { fg: Some(Color::Green), bold: Some(true), dimmed: None }),
            r.character.error_style == (StyleConfig { fg: Some(Color::Red), bold: Some(true), dimmed: None }),
            r.character.vicmd.glyph@ == seq!['\u{276e}'],
            r.character.vicmd.style is None,
            !r.git.disabled,
            r.git.icon@ == seq!['\u{f418}'],
            r.git.connector@ == "on"@,
            r.git.style == (StyleConfig { fg: Some(Color::Magenta), bold: Some(true), dimmed: None }),
            r.git.indicator_style == (StyleConfig { fg: Some(Color::Red), bold: Some(true), dimmed: None }),
            r.git.detached_hash_style == (StyleConfig { fg: Some(Color::Green), bold: Some(true), dimmed: None }),
            r.git.state_style == (StyleConfig { fg: Some(Color::Yellow), bold: Some(true), dimmed: None }),
            r.time.disabled,
            r.time.format == TimeFormat::WithSeconds,
            r.time.connector@ == "at"@,
            r.time.style == (StyleConfig { fg: Some(Color::Yellow), bold: Some(true), dimmed: None }),
            !r.cmd_duration.disabled,
            r.cmd_duration.threshold_ms == 2000,
            r.cmd_duration.connector@ == "took"@,
            r.cmd_duration.style == (StyleConfig { fg: Some(Color::Yellow), bold: Some(true), dimmed: None }),
            r.connectors.style == (StyleConfig { fg: None, bold: None, dimmed: None }),
            r.timeout == (TimeoutConfig { fast_ms: 500, slow_ms: 5000 }),
            r.color_map == default_color_map(),
            r.cache.slow == SlowCacheMode::Revalidate,
            r.module@.len() == 0,
    {
        Config {
            character: CharacterConfig::default(),
            directory: DirectoryConfig::default(),
            git: GitConfig::default(),
            time: TimeConfig::default(),
            cmd_duration: CmdDurationConfig::default(),
            connectors: ConnectorConfig::default(),
            timeout: TimeoutConfig::default(),
            color_map: ColorMap::default(),
            cache: CacheConfig::default(),
            module: Vec::new(),
        }
    }
}

impl Config {
    /// Completes the partially given module styles from their defaults: a
    /// style that sets only some fields keeps the defaults of the others.
    pub fn merge_style_defaults(self) -> (r: Self)
        ensures
            r.character.success_style == self.character.success_style.merge_with_spec(
                StyleConfig { fg: Some(Color::Green), bold: Some(true), dimmed: None },
            ),
            r.character.error_style == self.character.error_style.merge_with_spec(
                StyleConfig { fg: Some(Color::Red), bold: Some(true), dimmed: None },
            ),
            r.directory.style == self.directory.style.merge_with_spec(
                default_directory_config().style,
            ),
            r.directory.read_only_style == self.directory.read_only_style.merge_with_spec(
                default_directory_config().read_only_style,
            ),
            r.git.style == self.git.style.merge_with_spec(
                StyleConfig { fg: Some(Color::Magenta), bold: Some(true), dimmed: None },
            ),
            r.git.indicator_style == self.git.indicator_style.merge_with_spec(
                StyleConfig { fg: Some(Color::Red), bold: Some(true), dimmed: None },
            ),
            r.git.state_style == self.git.state_style.merge_with_spec(
                StyleConfig { fg: Some(Color::Yellow), bold: Some(true), dimmed: None },
            ),
            r.git.detached_hash_style == self.git.detached_hash_style.merge_with_spec(
                StyleConfig { fg: Some(Color::Green), bold: Some(true), dimmed: None },
            ),
            r.time.style == self.time.style.merge_with_spec(
                StyleConfig { fg: Some(Color::Yellow), bold: Some(true), dimmed: None },
            ),
            r.cmd_duration.style == self.cmd_duration.style.merge_with_spec(
                StyleConfig { fg: Some(Color::Yellow), bold: Some(true), dimmed: None },
            ),
            r.connectors == self.connectors,
            r.timeout == self.timeout,
            r.color_map == self.color_map,
            r.cache == self.cache,
            r.module == self.module,
    {
        let mut s = self;
        s.character = s.character.merge_style_defaults();
        s.directory = s.directory.merge_style_defaults();
        s.git = s.git.merge_style_defaults();
        s.time = s.time.merge_style_defaults();
        s.cmd_duration = s.cmd_duration.merge_style_defaults();
        s
    }
}

/// The configuration file under `$XDG_CONFIG_HOME`.
pub fn xdg_config_path(xdg_config_home: &str) -> (r: String)
    ensures
        r@ == crate::path::join_spec(xdg_config_home@, "capsule/config.toml"@),
{
    crate::path::join_path(xdg_config_home, "capsule/config.toml")
}

/// The two configuration file candidates under `$HOME`: the XDG default
/// `.config/capsule/config.toml`, then `.capsule/config.toml`.
pub fn home_config_paths(home: &str) -> (r: (String, String))
    ensures
        r.0@ == crate::path::join_spec(home@, ".config/capsule/config.toml"@),
        r.1@ == crate::path::join_spec(home@, ".capsule/config.toml"@),
{
    (
        crate::path::join_path(home, ".config/capsule/config.toml"),
        crate::path::join_path(home, ".capsule/config.toml"),
    )
}

/// Where the configuration is read from: below `$XDG_CONFIG_HOME` when that
/// is set; else, under `$HOME`, the XDG default when that file exists, else
/// `.capsule/config.toml` when that file exists, else the XDG default; and
/// nowhere without `$HOME`. The two flags tell whether the candidates under
/// `$HOME` exist.
pub fn resolve_config_path(
    xdg_config_home: Option<&str>,
    home: Option<&str>,
    xdg_default_exists: bool,
    dotdir_exists: bool,
) -> (r: Option<String>)
    ensures
        xdg_config_home matches Some(x) ==> (r matches Some(p) && p@ == crate::path::join_spec(
            x@,
            "capsule/config.toml"@,
        )),
        xdg_config_home is None && home is None ==> r is None,
        xdg_config_home is None ==> (home matches Some(h) ==> (r matches Some(p) && p@ == (if !xdg_default_exists
            && dotdir_exists {
            crate::path::join_spec(h@, ".capsule/config.toml"@)
        } else {
            crate::path::join_spec(h@, ".config/capsule/config.toml"@)
        }))),
{
    if let Some(x) = xdg_config_home {
        return Some(xdg_config_path(x));
    }
    let h = match home {
        Some(h) => h,
        None => return None,
    };
    let (xdg_default, dotdir) = home_config_paths(h);
    if xdg_default_exists {
        return Some(xdg_default);
    }
    if dotdir_exists {
        return Some(dotdir);
    }
    Some(xdg_default)
}

} // verus!
