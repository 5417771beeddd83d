use capsule::config::{
    default_module_format, default_source_name, home_config_paths, is_safe_relative_module_path, xdg_config_path,
    CharacterConfig, CharacterModeConfig, Config, RegexPattern, SlowCacheMode, SourceDef, SourceDefError, StyleConfig,
    TimeConfig, TimeFormat,
};
use capsule::render::style::{Color, ColorMap, Style};

#[test]
fn time_format_show_seconds() {
    let mut config = TimeConfig::default();
    assert!(config.show_seconds());

    config.format = TimeFormat::WithoutSeconds;
    assert!(!config.show_seconds());

    config.format = TimeFormat::WithSeconds;
    assert!(config.show_seconds());
}

#[test]
fn git_enabled_by_default() {
    let config = Config::default();
    assert!(!config.git.disabled);
}

#[test]
fn module_empty_by_default() {
    let config = Config::default();
    assert!(config.module.is_empty());
}

#[test]
fn cache_defaults_to_revalidate() {
    let config = Config::default();
    assert_eq!(config.cache.slow, SlowCacheMode::Revalidate);
}

#[test]
fn vicmd_default() {
    let config = Config::default();
    assert_eq!(config.character.vicmd.glyph, "\u{276e}", "default vicmd glyph should be ❮");
    assert!(config.character.vicmd.style.is_none(), "default vicmd style should fall back to parent");
}

#[test]
fn mode_segment_with_fixed_style() {
    let config = CharacterConfig::default();
    let mode = CharacterModeConfig { glyph: "❮".to_owned(), style: Some(StyleConfig::fg(Color::Magenta)) };
    let seg_ok = config.mode_segment(&mode, 0);
    let seg_err = config.mode_segment(&mode, 1);
    assert_eq!(seg_ok.content, "❮");
    assert_eq!(seg_ok.content_style, seg_err.content_style);
}

#[test]
fn mode_segment_falls_back_to_parent_style() {
    let config = CharacterConfig::default();
    let mode = CharacterModeConfig { glyph: "❮".to_owned(), style: None };
    let seg_ok = config.mode_segment(&mode, 0);
    let seg_err = config.mode_segment(&mode, 1);
    assert_ne!(seg_ok.content_style, seg_err.content_style, "fallback should use parent success/error styles");
    assert_eq!(seg_ok.content_style, config.to_segment("x", 0).content_style);
    assert_eq!(seg_err.content_style, config.to_segment("x", 1).content_style);
}

#[test]
fn load_missing_file_returns_defaults() {
    let config = Config::default();
    assert_eq!(config.character.glyph, "\u{276f}");
    assert_eq!(config.cmd_duration.threshold_ms, 2000);
}

#[test]
fn default_values() {
    let config = Config::default();
    assert!(config.time.disabled);
    assert_eq!(config.time.format, TimeFormat::WithSeconds);
    assert_eq!(config.time.connector, "at");
    assert_eq!(config.git.icon, "\u{f418}");
    assert_eq!(config.git.connector, "on");
    assert_eq!(config.cmd_duration.connector, "took");
    assert_eq!(config.timeout.fast_ms, 500);
    assert_eq!(config.timeout.slow_ms, 5000);
    assert_eq!(config.character.success_style.fg, Some(Color::Green));
    assert_eq!(config.directory.style.fg, Some(Color::Cyan));
}

#[test]
fn partial_style_preserves_parent_bold() {
    let mut config = Config::default();
    config.character.success_style = StyleConfig { fg: Some(Color::Magenta), bold: None, dimmed: None };
    let config = config.merge_style_defaults();
    assert_eq!(config.character.success_style.fg, Some(Color::Magenta));
    assert_eq!(config.character.success_style.bold, Some(true), "bold from CharacterConfig default should be preserved");
}

#[test]
fn partial_style_explicit_false_overrides_default() {
    let mut config = Config::default();
    config.character.success_style = StyleConfig { fg: Some(Color::Magenta), bold: Some(false), dimmed: None };
    let config = config.merge_style_defaults();
    assert_eq!(config.character.success_style.fg, Some(Color::Magenta));
    assert_eq!(config.character.success_style.bold, Some(false), "explicit bold = false should override the default true");
}

#[test]
fn git_partial_style_preserves_defaults() {
    let mut config = Config::default();
    config.git.style = StyleConfig { fg: Some(Color::Cyan), bold: None, dimmed: None };
    config.git.indicator_style = StyleConfig { fg: Some(Color::Yellow), bold: None, dimmed: None };
    let config = config.merge_style_defaults();
    assert_eq!(config.git.style.fg, Some(Color::Cyan));
    assert_eq!(config.git.style.bold, Some(true));
    assert_eq!(config.git.indicator_style.fg, Some(Color::Yellow));
    assert_eq!(config.git.indicator_style.bold, Some(true));
}

#[test]
fn full_style_override_not_affected() {
    let mut config = Config::default();
    config.character.success_style = StyleConfig { fg: Some(Color::Blue), bold: Some(false), dimmed: Some(true) };
    let config = config.merge_style_defaults();
    assert_eq!(config.character.success_style.fg, Some(Color::Blue));
    assert_eq!(config.character.success_style.bold, Some(false));
    assert_eq!(config.character.success_style.dimmed, Some(true));
}

#[test]
fn style_config_resolves_over_base() {
    let sc = StyleConfig { fg: Some(Color::Red), bold: Some(false), dimmed: Some(true) };
    assert_eq!(sc.resolve(Style::new().bold()), Style::new().fg(Color::Red).bold().dimmed());
    assert_eq!(StyleConfig::default().resolve(Style::new().fg(Color::Blue)), Style::new().fg(Color::Blue));
    let merged = StyleConfig::fg(Color::Green).merge_with(StyleConfig::fg_bold(Color::Red));
    assert_eq!(merged, StyleConfig { fg: Some(Color::Green), bold: Some(true), dimmed: None });
}

#[test]
fn time_format_names_round_trip() {
    assert_eq!(TimeFormat::parse("HH:MM"), Some(TimeFormat::WithoutSeconds));
    assert_eq!(TimeFormat::parse("HH:MM:SS"), Some(TimeFormat::WithSeconds));
    assert_eq!(TimeFormat::parse("hh:mm"), None);
    assert_eq!(TimeFormat::WithoutSeconds.to_string(), "HH:MM");
    assert_eq!(TimeFormat::WithSeconds.to_string(), "HH:MM:SS");
}

#[test]
fn module_source_requires_exactly_one_source_kind() {
    let missing = SourceDef::validate("value".to_owned(), None, None, None, None);
    assert_eq!(missing, Err(SourceDefError::SourceCount));
    let duplicate = SourceDef::validate(
        "value".to_owned(),
        Some("PROFILE".to_owned()),
        None,
        Some(vec!["echo".to_owned(), "fallback".to_owned()]),
        None,
    );
    assert_eq!(duplicate, Err(SourceDefError::SourceCount));
}

#[test]
fn module_source_rejects_empty_command() {
    let r = SourceDef::validate("value".to_owned(), None, None, Some(vec![]), None);
    assert_eq!(r, Err(SourceDefError::EmptyCommand));
}

#[test]
fn module_source_command_rejects_empty_argument() {
    let r = SourceDef::validate("value".to_owned(), None, None, Some(vec!["echo".to_owned(), String::new()]), None);
    assert_eq!(r, Err(SourceDefError::EmptyArgument));
}

#[test]
fn module_source_rejects_unsafe_file_path() {
    for file_path in ["../secret", "/etc/passwd", "./version", ""] {
        let r = SourceDef::validate("value".to_owned(), None, Some(file_path.to_owned()), None, None);
        assert_eq!(r, Err(SourceDefError::UnsafeFile), "{file_path} should be rejected");
    }
    assert!(is_safe_relative_module_path("package.json"));
    assert!(is_safe_relative_module_path("sub/dir/.nvmrc"));
    assert!(!is_safe_relative_module_path("a/../b"));
}

#[test]
fn module_source_accepts_each_single_kind() {
    let env = SourceDef::validate("value".to_owned(), Some("AWS_PROFILE".to_owned()), None, None, None);
    assert!(matches!(env, Ok(ref d) if d.env.as_deref() == Some("AWS_PROFILE") && !d.is_command()));
    let file = SourceDef::validate("ver".to_owned(), None, Some(".nvmrc".to_owned()), None, None);
    assert!(matches!(file, Ok(ref d) if d.name == "ver" && d.file.as_deref() == Some(".nvmrc")));
    let cmd = SourceDef::validate("value".to_owned(), None, None, Some(vec!["node".to_owned(), "--version".to_owned()]), None);
    assert!(matches!(cmd, Ok(ref d) if d.is_command()));
}

#[test]
fn source_error_messages() {
    assert_eq!(
        SourceDefError::SourceCount.message(),
        "module source must set exactly one of env, file, or command"
    );
    assert_eq!(SourceDefError::EmptyCommand.message(), "module source command must contain at least one argument");
    assert_eq!(SourceDefError::EmptyArgument.message(), "module source command arguments must not be empty");
    assert_eq!(
        SourceDefError::UnsafeFile.message(),
        "module source file must be a relative path without . or .. components"
    );
}

#[test]
fn regex_pattern_parse_reports_compile_errors() {
    let ok = RegexPattern::parse(r"v(\d+)".to_owned());
    assert_eq!(ok.as_ref().map(|p| p.as_str().to_owned()), Ok(r"v(\d+)".to_owned()));
    let bad = RegexPattern::parse("(unclosed".to_owned());
    match bad {
        Err(msg) => {
            assert!(msg.starts_with("invalid regex: "), "{msg}");
            assert!(msg.len() > "invalid regex: ".len(), "{msg}");
        },
        Ok(_) => panic!("unclosed group must be rejected"),
    }
}

#[test]
fn module_defaults() {
    assert_eq!(default_module_format(), "{value}");
    assert_eq!(default_source_name(), "value");
}

#[test]
fn config_file_locations() {
    assert_eq!(xdg_config_path("/home/u/.config"), "/home/u/.config/capsule/config.toml");
    let (xdg, legacy) = home_config_paths("/home/u");
    assert_eq!(xdg, "/home/u/.config/capsule/config.toml");
    assert_eq!(legacy, "/home/u/.capsule/config.toml");
}

#[test]
fn character_styles_follow_exit_code() {
    let config = CharacterConfig::default();
    assert_eq!(config.exit_style(0), Style::new().fg(Color::Green).bold());
    assert_eq!(config.exit_style(2), Style::new().fg(Color::Red).bold());
    assert_eq!(config.exit_style(-1), Style::new().fg(Color::Red).bold());
    let seg = config.to_segment("$", 0);
    assert_eq!(seg.content, "$");
    assert!(seg.connector.is_none() && seg.icon.is_none());
}

#[test]
fn git_styles_follow_configuration() {
    let config = Config::default();
    let styles = config.git.git_styles(ColorMap::default());
    assert_eq!(styles.branch, Style::new().fg(Color::Magenta).bold());
    assert_eq!(styles.indicator, Style::new().fg(Color::Red).bold());
    assert_eq!(styles.state, Style::new().fg(Color::Yellow).bold());
    assert_eq!(styles.detached_hash, Style::new().fg(Color::Green).bold());
    assert_eq!(styles.color_map, ColorMap::default());
}
