use capsule::render::compose_segments;
use capsule::render::layout::{display_width, truncate};
use capsule::render::segment::{Connector, Icon, Segment};
use capsule::render::style::{is_valid_foreground_code, Color, ColorMap, Style};

/// Whether `text` holds the SGR codes either combined (`ESC[1;32m`) or as
/// one sequence per code (`ESC[1mESC[32m`).
fn contains_style_sequence(text: &str, codes: &[u8]) -> bool {
    let joined: Vec<String> = codes.iter().map(|c| c.to_string()).collect();
    let combined = format!("\x1b[{}m", joined.join(";"));
    let mut split = String::new();
    for code in codes {
        split.push_str(&format!("\x1b[{code}m"));
    }
    text.contains(&combined) || text.contains(&split)
}

fn default_color_map() -> ColorMap {
    ColorMap::default()
}

fn seg(content: &str) -> Segment {
    Segment { content: content.to_owned(), connector: None, icon: None, content_style: None }
}

fn seg_with_connector(content: &str, word: &str) -> Segment {
    Segment {
        content: content.to_owned(),
        connector: Some(Connector { word: word.to_owned(), style: Style::new().dimmed() }),
        icon: None,
        content_style: None,
    }
}

// -- style --

#[test]
fn test_render_style_no_style() {
    let style = Style::new();
    assert_eq!(style.paint("hello"), "hello");
}

#[test]
fn test_render_style_foreground_color() {
    let style = Style::new().fg(Color::Red);
    let painted = style.paint("hello");
    assert!(painted.contains("\x1b[31m"), "should contain red ANSI code");
    assert!(painted.contains("\x1b[0m"), "should contain reset");
    assert!(painted.contains("%{"), "should have zsh escape open");
    assert!(painted.contains("%}"), "should have zsh escape close");
    assert!(painted.contains("hello"), "text should be present");
}

#[test]
fn test_render_style_bold() {
    let style = Style::new().bold();
    let painted = style.paint("hello");
    assert!(painted.contains("\x1b[1m"), "should contain bold ANSI code");
}

#[test]
fn test_render_style_bold_and_color() {
    let style = Style::new().fg(Color::Green).bold();
    let painted = style.paint("hello");
    assert!(contains_style_sequence(&painted, &[1, 32]), "should contain bold+green ANSI code");
}

#[test]
fn test_render_style_display_width_unchanged() {
    let style = Style::new().fg(Color::Cyan).bold();
    let painted = style.paint("hello");
    assert_eq!(display_width(&painted), 5, "styled text should have same display width as plain text");
}

#[test]
fn test_render_style_dimmed() {
    let style = Style::new().dimmed();
    let painted = style.paint("hello");
    assert!(painted.contains("\x1b[2m"), "should contain dimmed ANSI code");
    assert!(painted.contains("\x1b[0m"), "should contain reset");
    assert!(painted.contains("hello"), "text should be present");
}

#[test]
fn test_render_style_dimmed_and_color() {
    let style = Style::new().fg(Color::Cyan).dimmed();
    let painted = style.paint("hello");
    assert!(contains_style_sequence(&painted, &[2, 36]), "should contain dimmed+cyan ANSI code: {painted}");
}

#[test]
fn test_render_style_bright_black() {
    let style = Style::new().fg(Color::BrightBlack);
    let painted = style.paint("hello");
    assert!(painted.contains("\x1b[90m"), "should contain bright black ANSI code: {painted}");
}

#[test]
fn test_render_style_uses_custom_color_map() {
    let style = Style::new().fg(Color::Blue).bold();
    let color_map = ColorMap { blue: 94, ..ColorMap::default() };
    let painted = style.paint_with("hello", color_map);
    assert!(contains_style_sequence(&painted, &[1, 94]), "should contain remapped blue ANSI code: {painted}");
}

#[test]
fn paint_wraps_escapes_exactly() {
    let painted = Style::new().fg(Color::Red).paint("hi");
    assert_eq!(painted, "%{\x1b[31m%}hi%{\x1b[0m%}");
    let painted = Style::new().fg(Color::Green).bold().paint("x");
    assert_eq!(painted, "%{\x1b[1m\x1b[32m%}x%{\x1b[0m%}");
}

#[test]
fn paint_empty_text_with_style_keeps_width_zero() {
    let painted = Style::new().fg(Color::Magenta).paint("");
    assert_eq!(display_width(&painted), 0);
}

#[test]
fn valid_foreground_codes() {
    assert!(is_valid_foreground_code(30));
    assert!(is_valid_foreground_code(37));
    assert!(is_valid_foreground_code(90));
    assert!(is_valid_foreground_code(97));
    assert!(!is_valid_foreground_code(38));
    assert!(!is_valid_foreground_code(89));
    assert!(!is_valid_foreground_code(98));
}

// -- segment --

#[test]
fn test_segment_content_only() {
    let seg = Segment { content: "hello".to_owned(), connector: None, icon: None, content_style: None };
    assert_eq!(seg.render(default_color_map()), "hello");
}

#[test]
fn test_segment_with_content_style() {
    let seg = Segment {
        content: "dir".to_owned(),
        connector: None,
        icon: None,
        content_style: Some(Style::new().fg(Color::Cyan).bold()),
    };
    let rendered = seg.render(default_color_map());
    assert!(rendered.contains("dir"), "should contain content");
    assert!(contains_style_sequence(&rendered, &[1, 36]), "should contain bold cyan: {rendered}");
}

#[test]
fn test_segment_with_connector() {
    let seg = Segment {
        content: "main".to_owned(),
        connector: Some(Connector { word: "on".to_owned(), style: Style::new().dimmed() }),
        icon: None,
        content_style: None,
    };
    let rendered = seg.render(default_color_map());
    assert!(rendered.contains("on"), "should contain connector");
    assert!(rendered.contains("main"), "should contain content");
    assert!(rendered.contains("\x1b[2m"), "connector should be dimmed: {rendered}");
}

#[test]
fn test_segment_with_icon() {
    let seg = Segment {
        content: "main".to_owned(),
        connector: None,
        icon: Some(Icon { glyph: "\u{e0a0}".to_owned(), style: Style::new().fg(Color::Magenta) }),
        content_style: None,
    };
    let rendered = seg.render(default_color_map());
    assert!(rendered.contains("\u{e0a0}"), "should contain icon");
    assert!(rendered.contains("main"), "should contain content");
}

#[test]
fn test_segment_full() {
    let seg = Segment {
        content: "main".to_owned(),
        connector: Some(Connector { word: "on".to_owned(), style: Style::new().dimmed() }),
        icon: Some(Icon { glyph: "\u{e0a0}".to_owned(), style: Style::new().fg(Color::Magenta) }),
        content_style: Some(Style::new().fg(Color::Magenta).bold()),
    };
    let rendered = seg.render(default_color_map());
    assert!(rendered.contains("on"), "should contain connector");
    assert!(rendered.contains("\u{e0a0}"), "should contain icon");
    assert!(rendered.contains("main"), "should contain content");
}

#[test]
fn test_segment_display_width_excludes_escapes() {
    let seg = Segment {
        content: "dir".to_owned(),
        connector: Some(Connector { word: "on".to_owned(), style: Style::new().fg(Color::BrightBlack) }),
        icon: Some(Icon { glyph: "*".to_owned(), style: Style::new().fg(Color::Magenta) }),
        content_style: Some(Style::new().fg(Color::Cyan)),
    };
    let rendered = seg.render(default_color_map());
    assert_eq!(display_width(&rendered), 8, "display width should exclude ANSI escapes: {rendered}");
}

#[test]
fn test_segment_pre_styled_content() {
    let pre_styled = Style::new().fg(Color::Magenta).bold().paint("main");
    let seg = Segment { content: pre_styled.clone(), connector: None, icon: None, content_style: None };
    assert_eq!(seg.render(default_color_map()), pre_styled);
}

#[test]
fn test_segment_with_bright_black_connector() {
    let seg = Segment {
        content: "main".to_owned(),
        connector: Some(Connector { word: "on".to_owned(), style: Style::new().fg(Color::BrightBlack) }),
        icon: None,
        content_style: None,
    };
    let rendered = seg.render(default_color_map());
    assert!(rendered.contains("\x1b[90m"), "connector should use bright black ANSI code: {rendered}");
}

#[test]
fn test_segment_uses_custom_color_map() {
    let seg = Segment {
        content: "dir".to_owned(),
        connector: Some(Connector { word: "on".to_owned(), style: Style::new().fg(Color::BrightBlack) }),
        icon: None,
        content_style: Some(Style::new().fg(Color::Blue)),
    };
    let rendered = seg.render(ColorMap { blue: 94, bright_black: 37, ..ColorMap::default() });
    assert!(rendered.contains("\x1b[37m"), "connector remap missing: {rendered}");
    assert!(rendered.contains("\x1b[94m"), "content remap missing: {rendered}");
}

// -- composition --

#[test]
fn test_compose_segments_basic() {
    let result =
        compose_segments(&[seg("dir"), seg_with_connector("main", "on")], &[seg("❯")], 80, default_color_map());
    assert!(result.left1.contains("dir"), "should contain dir: {}", result.left1);
    assert!(result.left1.contains("on"), "should contain connector: {}", result.left1);
    assert!(result.left1.contains("main"), "should contain branch: {}", result.left1);
    assert_eq!(result.left2, "❯");
}

#[test]
fn test_compose_segments_left_aligned() {
    let result = compose_segments(&[seg("dir"), seg("rust")], &[seg("❯")], 80, default_color_map());
    assert!(
        display_width(&result.left1) < 80,
        "should not right-pad: width={}, line={}",
        display_width(&result.left1),
        result.left1
    );
    assert!(result.left1.starts_with("dir"), "left1: {}", result.left1);
}

#[test]
fn test_compose_segments_truncates_first() {
    let result = compose_segments(
        &[seg("very/long/directory/path/here"), seg("git")],
        &[seg("❯")],
        15,
        default_color_map(),
    );
    assert!(
        display_width(&result.left1) <= 15,
        "should fit in cols: width={}, line={}",
        display_width(&result.left1),
        result.left1
    );
    assert!(result.left1.contains("git"), "should preserve later segments: {}", result.left1);
}

#[test]
fn test_compose_segments_drops_rightmost() {
    let result = compose_segments(
        &[seg("dir"), seg("segment-aaa"), seg("segment-bbb")],
        &[seg("❯")],
        20,
        default_color_map(),
    );
    assert!(
        display_width(&result.left1) <= 20,
        "should fit: width={}, line={}",
        display_width(&result.left1),
        result.left1
    );
    assert!(result.left1.contains("dir"), "directory preserved: {}", result.left1);
    assert!(!result.left1.contains("segment-bbb"), "rightmost should be dropped: {}", result.left1);
}

#[test]
fn test_compose_segments_zero_cols() {
    let result = compose_segments(&[seg("hello")], &[seg("❯")], 0, default_color_map());
    assert_eq!(result.left1, "");
    assert_eq!(result.left2, "");
}

#[test]
fn test_compose_segments_empty() {
    let result = compose_segments(&[], &[], 80, default_color_map());
    assert_eq!(result.left1, "");
    assert_eq!(result.left2, "");
}

#[test]
fn test_compose_segments_with_styled_content() {
    let styled_seg = Segment {
        content: "project".to_owned(),
        connector: None,
        icon: None,
        content_style: Some(Style::new().fg(Color::Cyan)),
    };
    let result = compose_segments(&[styled_seg], &[seg("❯")], 30, default_color_map());
    assert!(result.left1.contains("project"), "should contain content: {}", result.left1);
    assert!(result.left1.contains("\x1b[36m"), "should contain cyan ANSI: {}", result.left1);
}

#[test]
fn compose_skips_empty_segments_and_joins_with_single_spaces() {
    let result = compose_segments(&[seg("a"), seg(""), seg("b")], &[], 80, default_color_map());
    assert_eq!(result.left1, "a b");
}

#[test]
fn compose_truncates_first_segment_exactly() {
    let result = compose_segments(&[seg("abcdefghij"), seg("git")], &[], 8, default_color_map());
    assert_eq!(result.left1, "abc\u{2026} git");
    assert_eq!(display_width(&result.left1), 8);
}

#[test]
fn compose_fits_every_width() {
    let segs = [seg("very/long/directory"), seg("segment-aaa"), seg_with_connector("main", "on")];
    for cols in 0..60 {
        let result = compose_segments(&segs, &segs, cols, default_color_map());
        assert!(display_width(&result.left1) <= cols, "cols={cols}: {}", result.left1);
        assert!(display_width(&result.left2) <= cols, "cols={cols}: {}", result.left2);
    }
}

// -- layout --

#[test]
fn test_render_width_plain_ascii() {
    assert_eq!(display_width("hello"), 5);
}

#[test]
fn test_render_width_empty() {
    assert_eq!(display_width(""), 0);
}

#[test]
fn test_render_width_cjk() {
    assert_eq!(display_width("日本語"), 6);
}

#[test]
fn test_render_width_mixed_ascii_cjk() {
    assert_eq!(display_width("hi世界"), 6);
}

#[test]
fn test_render_width_ansi_escape() {
    assert_eq!(display_width("\x1b[31mred\x1b[0m"), 3);
}

#[test]
fn test_render_width_zsh_escape() {
    assert_eq!(display_width("%{\x1b[31m%}red%{\x1b[0m%}"), 3);
}

#[test]
fn test_render_width_ansi_bold_color() {
    assert_eq!(display_width("\x1b[1;32mbold green\x1b[0m"), 10);
}

#[test]
fn test_render_width_bare_percent() {
    assert_eq!(display_width("100%"), 4);
}

#[test]
fn test_render_width_bare_esc() {
    assert_eq!(display_width("\x1bhello"), 5);
}

#[test]
fn test_render_truncate_no_op() {
    assert_eq!(truncate("hello", 10), "hello");
}

#[test]
fn test_render_truncate_exact_fit() {
    assert_eq!(truncate("hello", 5), "hello");
}

#[test]
fn test_render_truncate_basic() {
    let result = truncate("hello world", 6);
    assert_eq!(display_width(&result), 6);
    assert!(result.starts_with("hello"));
    assert!(result.ends_with('\u{2026}'));
}

#[test]
fn test_render_truncate_to_one() {
    let result = truncate("hello", 1);
    assert_eq!(result, "\u{2026}");
    assert_eq!(display_width(&result), 1);
}

#[test]
fn test_render_truncate_to_zero() {
    assert_eq!(truncate("hello", 0), "");
}

#[test]
fn test_render_truncate_cjk() {
    let result = truncate("日本語", 4);
    assert!(display_width(&result) <= 4);
    assert!(result.ends_with('\u{2026}'));
}

#[test]
fn test_render_truncate_preserves_ansi() {
    let styled = "\x1b[31mhello world\x1b[0m";
    let result = truncate(styled, 6);
    assert_eq!(display_width(&result), 6);
    assert!(result.contains("\x1b[31m"), "ANSI code should be preserved");
    assert!(result.contains("%{\x1b[0m%}"), "should have ANSI reset wrapped in zsh escapes");
}

#[test]
fn test_render_truncate_preserves_zsh_escape() {
    let styled = "%{\x1b[31m%}hello world%{\x1b[0m%}";
    let result = truncate(styled, 6);
    assert_eq!(display_width(&result), 6);
    assert!(result.contains("%{\x1b[31m%}"));
}

#[test]
fn test_render_width_double_percent() {
    assert_eq!(display_width("%%"), 1);
    assert_eq!(display_width("100%%"), 4);
}

#[test]
fn test_render_width_multiple_double_percent() {
    assert_eq!(display_width("50%%"), 3);
}

#[test]
fn test_render_truncate_double_percent_fits() {
    assert_eq!(truncate("100%%", 4), "100%%");
    assert_eq!(truncate("100%%", 5), "100%%");
}

#[test]
fn test_render_truncate_double_percent_truncated() {
    let result = truncate("100%%", 3);
    assert_eq!(display_width(&result), 3);
    assert!(result.ends_with('\u{2026}'));
}

#[test]
fn test_render_truncate_double_percent_pair_not_split() {
    let result = truncate("XY%%", 2);
    assert_eq!(display_width(&result), 2);
}

#[test]
fn test_render_truncate_double_percent_preserved() {
    assert_eq!(truncate("A%%B", 3), "A%%B");
    assert_eq!(display_width("A%%B"), 3);
}

#[test]
fn truncate_never_exceeds_width() {
    let samples = ["hello world", "日本語テキスト", "%{\x1b[31m%}red text%{\x1b[0m%}", "50%%off", "a\u{301}bc"];
    for s in samples {
        for w in 0..20 {
            let t = truncate(s, w);
            assert!(display_width(&t) <= w, "{s:?} at {w}: {t:?}");
            if display_width(s) <= w {
                assert_eq!(t, s);
            }
        }
    }
}

#[test]
fn width_of_wide_and_zero_width_chars_follows_unicode_table() {
    // combining acute accent has no width; a fullwidth letter takes two columns
    assert_eq!(display_width("e\u{301}"), 1);
    assert_eq!(display_width("\u{ff21}"), 2);
}
