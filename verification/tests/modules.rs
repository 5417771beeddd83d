use capsule::module::character::CharacterModule;
use capsule::module::cmd_duration::{format_duration, CmdDurationModule, DEFAULT_THRESHOLD_MS};
use capsule::module::directory::{abbreviate_home, format_directory, DirectoryModule};
use capsule::module::status::StatusModule;
use capsule::module::time::{format_time, render_time, TimeModule};
use capsule::module::{Module, ModuleSpeed, RenderContext};

fn ctx_with(
    cwd: &'static str,
    git_root: Option<&'static str>,
    exit_code: i32,
    duration_ms: Option<u64>,
) -> RenderContext<'static> {
    RenderContext {
        cwd,
        home_dir: "/Users/testuser",
        git_root,
        last_exit_code: exit_code,
        duration_ms,
        keymap: "main",
        cols: 80,
    }
}

fn duration_ctx(duration_ms: Option<u64>) -> RenderContext<'static> {
    ctx_with("/tmp", None, 0, duration_ms)
}

fn exit_ctx(exit_code: i32) -> RenderContext<'static> {
    ctx_with("/tmp", None, exit_code, None)
}

// -- cmd_duration --

#[test]
fn test_module_none_duration_returns_none() {
    let ctx = duration_ctx(None);
    assert!(CmdDurationModule::new().render(&ctx).is_none());
}

#[test]
fn test_module_below_threshold_returns_none() {
    let ctx = duration_ctx(Some(1999));
    assert!(CmdDurationModule::new().render(&ctx).is_none());
}

#[test]
fn test_module_at_threshold() {
    let ctx = duration_ctx(Some(2000));
    let output = CmdDurationModule::new().render(&ctx);
    assert_eq!(output.map(|o| o.content), Some("2s".to_owned()));
}

#[test]
fn test_module_above_threshold() {
    let ctx = duration_ctx(Some(3500));
    let output = CmdDurationModule::new().render(&ctx);
    assert_eq!(output.map(|o| o.content), Some("3s".to_owned()));
}

#[test]
fn test_module_minutes_and_seconds() {
    let ctx = duration_ctx(Some(65_000));
    let output = CmdDurationModule::new().render(&ctx);
    assert_eq!(output.map(|o| o.content), Some("1m5s".to_owned()));
}

#[test]
fn test_module_exact_minute() {
    let ctx = duration_ctx(Some(120_000));
    let output = CmdDurationModule::new().render(&ctx);
    assert_eq!(output.map(|o| o.content), Some("2m".to_owned()));
}

#[test]
fn test_module_hours_and_minutes() {
    let ctx = duration_ctx(Some(3_661_000));
    let output = CmdDurationModule::new().render(&ctx);
    assert_eq!(output.map(|o| o.content), Some("1h1m1s".to_owned()));
}

#[test]
fn test_module_exact_hour() {
    let ctx = duration_ctx(Some(3_600_000));
    let output = CmdDurationModule::new().render(&ctx);
    assert_eq!(output.map(|o| o.content), Some("1h".to_owned()));
}

#[test]
fn test_module_days() {
    let ctx = duration_ctx(Some(90_061_000));
    let output = CmdDurationModule::new().render(&ctx);
    assert_eq!(output.map(|o| o.content), Some("1d1h1m1s".to_owned()));
}

#[test]
fn test_module_exact_day() {
    let ctx = duration_ctx(Some(86_400_000));
    let output = CmdDurationModule::new().render(&ctx);
    assert_eq!(output.map(|o| o.content), Some("1d".to_owned()));
}

#[test]
fn duration_threshold_is_configurable() {
    let ctx = duration_ctx(Some(500));
    assert!(CmdDurationModule::new().render(&ctx).is_none());
    let output = CmdDurationModule::with_threshold(500).render(&ctx);
    assert_eq!(output.map(|o| o.content), Some("0s".to_owned()));
    assert_eq!(DEFAULT_THRESHOLD_MS, 2000);
}

#[test]
fn duration_formatting_exact_values() {
    assert_eq!(format_duration(0), "0s");
    assert_eq!(format_duration(59_999), "59s");
    assert_eq!(format_duration(60_000), "1m");
    assert_eq!(format_duration(86_400_000 * 3 + 1_000), "3d1s");
    assert_eq!(format_duration(u64::MAX), "213503982334d14h25m51s");
}

#[test]
fn duration_module_is_fast() {
    let m = CmdDurationModule::new();
    assert_eq!(m.name(), "cmd_duration");
    assert_eq!(m.speed(), ModuleSpeed::Fast);
}

// -- time --

#[test]
fn format_with_seconds() {
    assert_eq!(format_time(14, 5, 9, true), "14:05:09");
}

#[test]
fn format_without_seconds() {
    assert_eq!(format_time(14, 5, 9, false), "14:05");
}

#[test]
fn render_none() {
    assert!(render_time(None, true).is_none());
}

#[test]
fn render_with_seconds() {
    let output = render_time(Some((14, 5, 9)), true);
    assert_eq!(output.map(|o| o.content), Some("14:05:09".to_owned()));
}

#[test]
fn render_without_seconds() {
    let output = render_time(Some((14, 5, 9)), false);
    assert_eq!(output.map(|o| o.content), Some("14:05".to_owned()));
}

#[test]
fn time_module_renders_given_clock_reading() {
    let m = TimeModule::with_show_seconds(false);
    assert_eq!(m.render_at(Some((0, 0, 59))).map(|o| o.content), Some("00:00".to_owned()));
    assert!(m.render_at(None).is_none());
    let m = TimeModule::new();
    assert_eq!(m.render_at(Some((23, 59, 7))).map(|o| o.content), Some("23:59:07".to_owned()));
    assert_eq!(m.name(), "time");
    assert_eq!(m.speed(), ModuleSpeed::Fast);
}

// -- status --

#[test]
fn test_module_exit_code_zero_returns_none() {
    let ctx = exit_ctx(0);
    assert!(StatusModule::new().render(&ctx).is_none());
}

#[test]
fn test_module_exit_code_one() {
    let ctx = exit_ctx(1);
    let output = StatusModule::new().render(&ctx);
    assert_eq!(output.map(|o| o.content), Some("1".to_owned()));
}

#[test]
fn test_module_exit_code_130() {
    let ctx = exit_ctx(130);
    let output = StatusModule::new().render(&ctx);
    assert_eq!(output.map(|o| o.content), Some("130".to_owned()));
}

#[test]
fn test_module_negative_exit_code() {
    let ctx = exit_ctx(-1);
    let output = StatusModule::new().render(&ctx);
    assert_eq!(output.map(|o| o.content), Some("-1".to_owned()));
}

#[test]
fn status_extreme_exit_codes() {
    let output = StatusModule::new().render(&exit_ctx(i32::MIN));
    assert_eq!(output.map(|o| o.content), Some("-2147483648".to_owned()));
    let output = StatusModule::new().render(&exit_ctx(i32::MAX));
    assert_eq!(output.map(|o| o.content), Some("2147483647".to_owned()));
}

// -- character --

#[test]
fn test_module_always_outputs_prompt_char() {
    let ctx = exit_ctx(0);
    let output = CharacterModule::new().render(&ctx);
    assert_eq!(output.map(|o| o.content), Some("❯".to_owned()));
}

#[test]
fn test_module_same_char_on_error() {
    let ctx = exit_ctx(1);
    let output = CharacterModule::new().render(&ctx);
    assert_eq!(output.map(|o| o.content), Some("❯".to_owned()));
}

// -- directory --

#[test]
fn test_module_cwd_is_home() {
    let ctx = ctx_with("/Users/testuser", None, 0, None);
    let output = DirectoryModule::new().render(&ctx);
    assert_eq!(output.map(|o| o.content), Some("~".to_owned()));
}

#[test]
fn test_module_cwd_outside_home() {
    let ctx = ctx_with("/tmp/.tmpAbC123", None, 0, None);
    let output = DirectoryModule::new().render(&ctx);
    let content = output.map(|o| o.content);
    assert!(content.as_ref().is_some_and(|c| !c.is_empty()), "should produce output: {content:?}");
    assert_eq!(content, Some("/tmp/.tmpAbC123".to_owned()));
}

#[test]
fn test_module_cwd_is_root() {
    let ctx = ctx_with("/", None, 0, None);
    let output = DirectoryModule::new().render(&ctx);
    assert_eq!(output.map(|o| o.content), Some("/".to_owned()));
}

#[test]
fn test_module_at_git_repo_root() {
    let ctx = ctx_with("/tmp/.tmpXyZ", Some("/tmp/.tmpXyZ"), 0, None);
    let output = DirectoryModule::new().render(&ctx);
    assert_eq!(output.map(|o| o.content), Some(".tmpXyZ".to_owned()));
}

#[test]
fn test_module_inside_git_repo() {
    let ctx = ctx_with("/tmp/.tmpXyZ/src/module", Some("/tmp/.tmpXyZ"), 0, None);
    let output = DirectoryModule::new().render(&ctx);
    assert_eq!(output.map(|o| o.content), Some("src/module".to_owned()), "should show repo-relative path");
}

#[test]
fn test_module_cwd_under_home_no_git() {
    let ctx = ctx_with("/Users/testuser/nonexistent/projects/capsule", None, 0, None);
    let output = DirectoryModule::new().render(&ctx);
    assert_eq!(
        output.map(|o| o.content),
        Some("~/nonexistent/projects/capsule".to_owned()),
        "should fall back to home-abbreviated when no .git"
    );
}

#[test]
fn home_abbreviation_matches_whole_components_only() {
    assert_eq!(abbreviate_home("/Users/testuser2/x", "/Users/testuser"), "/Users/testuser2/x");
    assert_eq!(abbreviate_home("/Users/testuser/x", "/Users/testuser"), "~/x");
    assert_eq!(abbreviate_home("/Users/testuser", "/Users/testuser"), "~");
}

#[test]
fn directory_formatting_prefers_git_root() {
    assert_eq!(format_directory("/Users/testuser/repo", "/Users/testuser", Some("/Users/testuser/repo")), "repo");
    assert_eq!(
        format_directory("/Users/testuser/repo/a/b", "/Users/testuser", Some("/Users/testuser/repo")),
        "a/b"
    );
    assert_eq!(format_directory("/Users/testuser/repo/a", "/Users/testuser", None), "~/repo/a");
}
