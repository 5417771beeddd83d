use capsule::module::git::{
    detect_git_state, format_git_output, gitdir_pointer_target, is_oid_sliceable, parse_porcelain_v2,
    read_progress, short_commit_prefix, write_state, GitDirFacts, GitError, GitModule, GitOperationState,
    GitProvider, GitState, GitStatus, GitStyles,
};
use capsule::module::{Module, ModuleSpeed, RenderContext};
use capsule::render::layout::display_width;
use capsule::render::style::{Color, ColorMap, Style};

fn contains_style_sequence(text: &str, codes: &[u8]) -> bool {
    let joined: Vec<String> = codes.iter().map(|c| c.to_string()).collect();
    let combined = format!("\x1b[{}m", joined.join(";"));
    let mut split = String::new();
    for code in codes {
        split.push_str(&format!("\x1b[{code}m"));
    }
    text.contains(&combined) || text.contains(&split)
}

fn strip_ansi_and_zsh(s: &str) -> String {
    let mut result = String::with_capacity(s.len());
    let mut chars = s.chars().peekable();
    while let Some(c) = chars.next() {
        if c == '%' && chars.peek() == Some(&'{') {
            chars.next();
            while let Some(inner) = chars.next() {
                if inner == '%' && chars.peek() == Some(&'}') {
                    chars.next();
                    break;
                }
            }
        } else {
            result.push(c);
        }
    }
    result
}

fn state_to_string(op_state: &GitOperationState) -> String {
    let mut buf = String::new();
    write_state(&mut buf, op_state);
    buf
}

struct MockGitProvider {
    result: Option<GitStatus>,
}

impl GitProvider for MockGitProvider {
    fn status(&self, _cwd: &str, _path_env: Option<&str>) -> Result<Option<GitStatus>, GitError> {
        Ok(self.result.clone())
    }
}

struct FailingGitProvider;

impl GitProvider for FailingGitProvider {
    fn status(&self, _cwd: &str, _path_env: Option<&str>) -> Result<Option<GitStatus>, GitError> {
        Err(GitError::Command("git exited with status 128".to_owned()))
    }
}

fn make_ctx() -> RenderContext<'static> {
    RenderContext {
        cwd: "/tmp",
        home_dir: "/Users/testuser",
        git_root: None,
        last_exit_code: 0,
        duration_ms: None,
        keymap: "main",
        cols: 80,
    }
}

fn no_facts() -> GitDirFacts {
    GitDirFacts {
        rebase_merge: false,
        rebase_merge_msgnum: None,
        rebase_merge_end: None,
        rebase_apply: false,
        rebase_apply_applying: false,
        rebase_apply_next: None,
        rebase_apply_last: None,
        merge_head: false,
        cherry_pick_head: false,
        revert_head: false,
        bisect_log: false,
    }
}

// -- GitState display --

#[test]
fn test_git_state_display_rebase() {
    assert_eq!(GitState::Rebase.to_string(), "REBASING");
}

#[test]
fn test_git_state_display_am() {
    assert_eq!(GitState::Am.to_string(), "AM");
}

#[test]
fn test_git_state_display_merge() {
    assert_eq!(GitState::Merge.to_string(), "MERGING");
}

#[test]
fn test_git_state_display_cherry_pick() {
    assert_eq!(GitState::CherryPick.to_string(), "CHERRY-PICKING");
}

#[test]
fn test_git_state_display_revert() {
    assert_eq!(GitState::Revert.to_string(), "REVERTING");
}

#[test]
fn test_git_state_display_bisect() {
    assert_eq!(GitState::Bisect.to_string(), "BISECTING");
}

// -- worktree pointer --

#[test]
fn gitdir_pointer_absolute_and_relative() {
    assert_eq!(gitdir_pointer_target("gitdir: /repo/.git/worktrees/wt"), Some("/repo/.git/worktrees/wt".to_owned()));
    assert_eq!(gitdir_pointer_target("gitdir: ../actual-gitdir\n"), Some("../actual-gitdir".to_owned()));
    assert_eq!(gitdir_pointer_target("not a pointer"), None);
}

// -- operation state detection --

#[test]
fn test_detect_rebase_merge_with_progress() {
    let facts = GitDirFacts {
        rebase_merge: true,
        rebase_merge_msgnum: Some("3\n".to_owned()),
        rebase_merge_end: Some("7\n".to_owned()),
        ..no_facts()
    };
    assert_eq!(
        detect_git_state(&facts),
        Some(GitOperationState { state: GitState::Rebase, step: Some(3), total: Some(7) }),
    );
}

#[test]
fn test_detect_rebase_merge_without_progress() {
    let facts = GitDirFacts { rebase_merge: true, ..no_facts() };
    assert_eq!(
        detect_git_state(&facts),
        Some(GitOperationState { state: GitState::Rebase, step: None, total: None }),
        "rebase-merge dir without msgnum/end should have None step/total",
    );
}

#[test]
fn test_detect_rebase_apply() {
    let facts = GitDirFacts {
        rebase_apply: true,
        rebase_apply_next: Some("2\n".to_owned()),
        rebase_apply_last: Some("5\n".to_owned()),
        ..no_facts()
    };
    assert_eq!(
        detect_git_state(&facts),
        Some(GitOperationState { state: GitState::Rebase, step: Some(2), total: Some(5) }),
    );
}

#[test]
fn test_detect_am() {
    let facts = GitDirFacts {
        rebase_apply: true,
        rebase_apply_applying: true,
        rebase_apply_next: Some("1\n".to_owned()),
        rebase_apply_last: Some("3\n".to_owned()),
        ..no_facts()
    };
    assert_eq!(
        detect_git_state(&facts),
        Some(GitOperationState { state: GitState::Am, step: Some(1), total: Some(3) }),
    );
}

#[test]
fn test_detect_merge() {
    let facts = GitDirFacts { merge_head: true, ..no_facts() };
    assert_eq!(detect_git_state(&facts), Some(GitOperationState::without_progress(GitState::Merge)));
}

#[test]
fn test_detect_cherry_pick() {
    let facts = GitDirFacts { cherry_pick_head: true, ..no_facts() };
    assert_eq!(detect_git_state(&facts), Some(GitOperationState::without_progress(GitState::CherryPick)));
}

#[test]
fn test_detect_revert() {
    let facts = GitDirFacts { revert_head: true, ..no_facts() };
    assert_eq!(detect_git_state(&facts), Some(GitOperationState::without_progress(GitState::Revert)));
}

#[test]
fn test_detect_bisect() {
    let facts = GitDirFacts { bisect_log: true, ..no_facts() };
    assert_eq!(detect_git_state(&facts), Some(GitOperationState::without_progress(GitState::Bisect)));
}

#[test]
fn test_detect_no_state() {
    assert_eq!(detect_git_state(&no_facts()), None);
}

#[test]
fn test_detect_priority_rebase_over_merge() {
    let facts = GitDirFacts { rebase_merge: true, merge_head: true, ..no_facts() };
    let result = detect_git_state(&facts);
    assert!(result.is_some_and(|s| s.state == GitState::Rebase), "rebase should take priority over merge: {result:?}");
}

#[test]
fn progress_files_are_trimmed_and_parsed() {
    assert_eq!(read_progress(&Some("  12 \n".to_owned())), Some(12));
    assert_eq!(read_progress(&Some("x1".to_owned())), None);
    assert_eq!(read_progress(&Some(String::new())), None);
    assert_eq!(read_progress(&None), None);
}

// -- porcelain v2 parsing --

#[test]
fn test_parse_porcelain_v2_branch_and_counts() {
    let output = "\
# branch.oid abc123def456
# branch.head main
# branch.ab +1 -2
1 M. N... 000000 000000 abc123 def456 modified.rs
1 .M N... 000000 000000 abc123 def456 worktree.rs
? untracked.txt
";
    let status = parse_porcelain_v2(output);
    assert_eq!(status.branch, Some("main".to_owned()));
    assert_eq!(status.ahead, 1);
    assert_eq!(status.behind, 2);
    assert_eq!(status.staged, 1);
    assert_eq!(status.modified, 1);
    assert_eq!(status.untracked, 1);
    assert_eq!(status.conflicted, 0);
    assert_eq!(status.head_oid, Some("abc123def456".to_owned()), "full oid from porcelain");
}

#[test]
fn test_parse_porcelain_v2_detached_head() {
    let output = "# branch.oid abc123\n# branch.head (detached)\n";
    let status = parse_porcelain_v2(output);
    assert_eq!(status.branch, None);
    assert_eq!(status.head_oid, Some("abc123".to_owned()));
}

#[test]
fn test_parse_porcelain_v2_staged_and_modified() {
    let output = "# branch.head feature\n1 MM N... 000000 000000 abc123 def456 both.rs\n";
    let status = parse_porcelain_v2(output);
    assert_eq!(status.staged, 1);
    assert_eq!(status.modified, 1);
}

#[test]
fn test_parse_porcelain_v2_conflicted() {
    let output = "# branch.head main\nu UU N... 000000 000000 000000 abc123 def456 ghi789 conflict.rs\n";
    let status = parse_porcelain_v2(output);
    assert_eq!(status.conflicted, 1);
}

#[test]
fn test_parse_porcelain_v2_rename_entry() {
    let output = "# branch.head main\n2 R. N... 000000 000000 abc123 def456 R100 new.rs\told.rs\n";
    let status = parse_porcelain_v2(output);
    assert_eq!(status.staged, 1);
    assert_eq!(status.modified, 0);
}

#[test]
fn test_parse_porcelain_v2_empty_output() {
    let status = parse_porcelain_v2("");
    assert_eq!(status, GitStatus::default());
}

#[test]
fn test_parse_stash_count() {
    let output = "\
# branch.head main
# stash 5
";
    let status = parse_porcelain_v2(output);
    assert_eq!(status.stashed, 5);
}

#[test]
fn test_parse_deleted_file() {
    let output = "\
# branch.head main
1 D. N... 100644 000000 000000 abc123 000000 deleted.rs
";
    let status = parse_porcelain_v2(output);
    assert_eq!(status.deleted, 1, "index delete should be tracked");
}

#[test]
fn test_parse_worktree_deleted_file() {
    let output = "\
# branch.head main
1 .D N... 100644 100644 000000 abc123 def456 deleted.rs
";
    let status = parse_porcelain_v2(output);
    assert_eq!(status.deleted, 1, "worktree delete should be tracked");
}

#[test]
fn test_parse_renamed_file() {
    let output = "\
# branch.head main
2 R. N... 100644 100644 100644 abc123 def456 R100 new.rs\told.rs
";
    let status = parse_porcelain_v2(output);
    assert_eq!(status.renamed, 1, "rename should be tracked");
}

#[test]
fn porcelain_ignores_unknown_lines_and_bad_numbers() {
    let output = "# branch.head dev\n# branch.ab +x -3\n! ignored.txt\nrandom line\n? a\n? b\n";
    let status = parse_porcelain_v2(output);
    assert_eq!(status.branch, Some("dev".to_owned()));
    assert_eq!(status.untracked, 2);
    assert_eq!(status.staged, 0);
    assert_eq!(status.state, None);
}

// -- formatting --

#[test]
fn test_format_git_output_branch_only() {
    let status = GitStatus { branch: Some("main".to_owned()), ..GitStatus::default() };
    let output = format_git_output(&status, &GitStyles::default());
    assert_eq!(display_width(&output), 4, "visible width: {output:?}");
    assert!(output.contains("main"), "should contain branch name");
    assert!(contains_style_sequence(&output, &[1, 35]), "branch should be bold magenta");
    assert_eq!(display_width(&output), display_width("main"), "no extra content when no status");
}

#[test]
fn test_format_git_output_bracket_indicators() {
    let status = GitStatus {
        branch: Some("main".to_owned()),
        staged: 2,
        modified: 1,
        untracked: 3,
        ahead: 1,
        ..GitStatus::default()
    };
    let output = format_git_output(&status, &GitStyles::default());
    assert_eq!(display_width(&output), 11, "visible width: {output:?}");
    assert!(output.contains("main"), "should contain branch");
    assert!(output.contains("[!+?⇡]"), "should contain bracketed indicators: {output:?}");
    assert!(contains_style_sequence(&output, &[1, 31]), "brackets should be bold red: {output:?}");
}

#[test]
fn test_format_git_output_detached_clean_shows_short_oid() {
    let status = GitStatus {
        branch: None,
        head_oid: Some("abcdef0123456789abcdef0123456789abcd".to_owned()),
        ..GitStatus::default()
    };
    let output = format_git_output(&status, &GitStyles::default());
    assert_eq!(display_width(&output), 14, "visible width: {output:?}");
    assert!(output.contains("HEAD ") && output.contains("(abcdef0)"), "detached label: {output:?}");
    assert!(contains_style_sequence(&output, &[1, 35]), "HEAD should use branch style bold magenta: {output:?}");
    assert!(
        contains_style_sequence(&output, &[2, 32]) || contains_style_sequence(&output, &[32, 2]),
        "(hash) should use dimmed green: {output:?}"
    );
}

#[test]
fn test_format_git_output_detached_with_indicators() {
    let status = GitStatus {
        branch: None,
        head_oid: Some("deadbeef".to_owned()),
        modified: 1,
        ..GitStatus::default()
    };
    let output = format_git_output(&status, &GitStyles::default());
    let clean = strip_ansi_and_zsh(&output);
    assert_eq!(clean, "HEAD (deadbee) [!]", "short oid shorter than 7 uses full hash inside parens: {output:?}");
}

#[test]
fn test_format_git_output_no_branch() {
    let status = GitStatus { branch: None, staged: 1, ..GitStatus::default() };
    let output = format_git_output(&status, &GitStyles::default());
    assert_eq!(display_width(&output), 3, "visible width: {output:?}");
    assert!(output.contains("[+]"), "should contain bracketed staged indicator: {output:?}");
    assert!(contains_style_sequence(&output, &[1, 31]), "brackets should be bold red: {output:?}");
}

#[test]
fn test_format_conflict_uses_equals_sign() {
    let status = GitStatus { branch: Some("main".to_owned()), conflicted: 1, ..GitStatus::default() };
    let output = format_git_output(&status, &GitStyles::default());
    assert!(output.contains("[=]"), "conflict should use '=' not '~': {output:?}");
}

#[test]
fn test_format_stash_indicator() {
    let status = GitStatus { branch: Some("main".to_owned()), stashed: 3, ..GitStatus::default() };
    let output = format_git_output(&status, &GitStyles::default());
    assert!(output.contains("[$]"), "stash should show '$': {output:?}");
}

#[test]
fn test_format_deleted_indicator() {
    let status = GitStatus { branch: Some("main".to_owned()), deleted: 1, ..GitStatus::default() };
    let output = format_git_output(&status, &GitStyles::default());
    assert!(output.contains("[✘]"), "deleted should show '✘': {output:?}");
}

#[test]
fn test_format_renamed_indicator() {
    let status = GitStatus { branch: Some("main".to_owned()), renamed: 1, ..GitStatus::default() };
    let output = format_git_output(&status, &GitStyles::default());
    assert!(output.contains("[»]"), "renamed should show '»': {output:?}");
}

#[test]
fn test_format_diverged_indicator() {
    let status = GitStatus { branch: Some("main".to_owned()), ahead: 2, behind: 1, ..GitStatus::default() };
    let output = format_git_output(&status, &GitStyles::default());
    assert!(output.contains('⇕'), "diverged (ahead+behind) should show '⇕': {output:?}");
    assert!(!output.contains('⇡'), "diverged should not show separate '⇡': {output:?}");
    assert!(!output.contains('⇣'), "diverged should not show separate '⇣': {output:?}");
}

#[test]
fn test_format_indicator_order() {
    let status = GitStatus {
        branch: Some("main".to_owned()),
        conflicted: 1,
        stashed: 1,
        deleted: 1,
        renamed: 1,
        modified: 1,
        staged: 1,
        untracked: 1,
        ahead: 1,
        behind: 0,
        ..GitStatus::default()
    };
    let output = format_git_output(&status, &GitStyles::default());
    let clean = strip_ansi_and_zsh(&output);
    assert_eq!(clean, "main [=$✘»!+?⇡]", "indicators should be in Starship order: {output:?}");
}

#[test]
fn behind_only_shows_down_arrow() {
    let status = GitStatus { branch: Some("main".to_owned()), behind: 4, ..GitStatus::default() };
    let output = format_git_output(&status, &GitStyles::default());
    assert_eq!(strip_ansi_and_zsh(&output), "main [⇣]");
}

#[test]
fn test_format_git_output_custom_styles() {
    let status = GitStatus { branch: Some("main".to_owned()), modified: 1, ..GitStatus::default() };
    let output = format_git_output(
        &status,
        &GitStyles {
            branch: Style::new().fg(Color::Cyan),
            detached_hash: Style::new().fg(Color::Green),
            indicator: Style::new().fg(Color::Yellow),
            color_map: ColorMap { cyan: 96, green: 32, yellow: 93, ..ColorMap::default() },
            ..GitStyles::default()
        },
    );
    assert!(output.contains("\x1b[96m"), "branch should use remapped cyan: {output:?}");
    assert!(output.contains("\x1b[93m"), "indicators should use remapped yellow: {output:?}");
}

#[test]
fn test_write_state_progress() {
    let state = GitOperationState { state: GitState::Rebase, step: Some(2), total: Some(5) };
    assert_eq!(state_to_string(&state), "(REBASING 2/5)");
}

#[test]
fn test_write_state_no_progress() {
    let state = GitOperationState::without_progress(GitState::Merge);
    assert_eq!(state_to_string(&state), "(MERGING)");
}

#[test]
fn test_write_state_partial_progress_falls_back() {
    let state = GitOperationState { state: GitState::Rebase, step: Some(3), total: None };
    assert_eq!(state_to_string(&state), "(REBASING)", "partial progress should fall back to no-progress display");
}

#[test]
fn test_format_git_output_rebase_state() {
    let status = GitStatus {
        branch: Some("main".to_owned()),
        state: Some(GitOperationState { state: GitState::Rebase, step: Some(2), total: Some(5) }),
        ..GitStatus::default()
    };
    let output = format_git_output(&status, &GitStyles::default());
    assert_eq!(strip_ansi_and_zsh(&output), "main (REBASING 2/5)");
}

#[test]
fn test_format_git_output_merge_state() {
    let status = GitStatus {
        branch: Some("main".to_owned()),
        state: Some(GitOperationState::without_progress(GitState::Merge)),
        ..GitStatus::default()
    };
    let output = format_git_output(&status, &GitStyles::default());
    assert_eq!(strip_ansi_and_zsh(&output), "main (MERGING)");
}

#[test]
fn test_format_git_output_state_indicators() {
    let status = GitStatus {
        branch: Some("main".to_owned()),
        state: Some(GitOperationState { state: GitState::Rebase, step: Some(2), total: Some(5) }),
        modified: 1,
        staged: 1,
        ..GitStatus::default()
    };
    let output = format_git_output(&status, &GitStyles::default());
    assert_eq!(strip_ansi_and_zsh(&output), "main (REBASING 2/5) [!+]");
}

#[test]
fn test_format_git_output_detached_state() {
    let status = GitStatus {
        branch: None,
        head_oid: Some("abcdef0123456789".to_owned()),
        state: Some(GitOperationState::without_progress(GitState::CherryPick)),
        ..GitStatus::default()
    };
    let output = format_git_output(&status, &GitStyles::default());
    assert_eq!(strip_ansi_and_zsh(&output), "HEAD (abcdef0) (CHERRY-PICKING)");
}

#[test]
fn test_format_git_output_state_style() {
    let status = GitStatus {
        branch: Some("main".to_owned()),
        state: Some(GitOperationState::without_progress(GitState::Merge)),
        ..GitStatus::default()
    };
    let output = format_git_output(&status, &GitStyles::default());
    assert!(contains_style_sequence(&output, &[1, 33]), "state should be bold yellow: {output:?}");
}

#[test]
fn short_commit_prefix_takes_seven_characters() {
    assert_eq!(short_commit_prefix("abcdef0123"), "abcdef0");
    assert_eq!(short_commit_prefix("abc"), "abc");
    assert!(is_oid_sliceable("abcdef0123"));
    assert!(is_oid_sliceable("abc"));
    assert!(!is_oid_sliceable("abcdef\u{e9}1"));
}

// -- module --

#[test]
fn test_module_not_a_repo_returns_none() {
    let module = GitModule::new(MockGitProvider { result: None });
    let ctx = make_ctx();
    assert!(module.render(&ctx).is_none());
}

#[test]
fn test_module_staged_changes() {
    let module = GitModule::new(MockGitProvider {
        result: Some(GitStatus { branch: Some("main".to_owned()), staged: 2, ..GitStatus::default() }),
    });
    let ctx = make_ctx();
    let output = module.render(&ctx);
    assert!(output.is_some());
    let content = output.map(|o| o.content).unwrap_or_default();
    assert!(content.contains("[+]"), "expected bracketed staged indicator in: {content}");
}

#[test]
fn tests_test_module_speed_is_slow() {
    let module = GitModule::new(MockGitProvider { result: None });
    assert_eq!(module.speed(), ModuleSpeed::Slow);
    assert_eq!(module.name(), "git");
}

#[test]
fn provider_error_renders_nothing() {
    let module = GitModule::new(FailingGitProvider);
    assert!(module.render(&make_ctx()).is_none());
}

#[test]
fn empty_status_renders_nothing() {
    let module = GitModule::new(MockGitProvider { result: Some(GitStatus::default()) });
    assert!(module.render(&make_ctx()).is_none());
}

#[test]
fn module_renders_with_its_own_styles() {
    let styles = GitStyles {
        branch: Style::new().fg(Color::Cyan),
        color_map: ColorMap { cyan: 96, ..ColorMap::default() },
        ..GitStyles::default()
    };
    let status = GitStatus { branch: Some("main".to_owned()), ..GitStatus::default() };
    let module = GitModule::with_styles(MockGitProvider { result: Some(status.clone()) }, styles);
    let content = module.render(&make_ctx()).map(|o| o.content);
    assert_eq!(content, Some(format_git_output(&status, &styles)));
    assert!(content.unwrap_or_default().contains("\x1b[96m"));
}

#[test]
fn provider_results_render_as_reported() {
    let module = GitModule::new(MockGitProvider { result: None });
    assert!(module.render_provider_result(Ok(None)).is_none());
    assert!(module.render_provider_result(Err(GitError::Command("git exited with status 128".to_owned()))).is_none());
    let status = GitStatus { branch: Some("main".to_owned()), staged: 1, ..GitStatus::default() };
    let content = module.render_provider_result(Ok(Some(status.clone()))).map(|o| o.content);
    assert_eq!(content, Some(format_git_output(&status, &GitStyles::default())));
}

/// Reports a repository only for the directory and `PATH` it expects.
struct ExpectingGitProvider;

impl GitProvider for ExpectingGitProvider {
    fn status(&self, cwd: &str, path_env: Option<&str>) -> Result<Option<GitStatus>, GitError> {
        if cwd == "/work/repo" && path_env == Some("/opt/git/bin") {
            Ok(Some(GitStatus { branch: Some("main".to_owned()), ..GitStatus::default() }))
        } else {
            Ok(None)
        }
    }
}

#[test]
fn render_for_cwd_hands_directory_and_path_to_the_provider() {
    let module = GitModule::new(ExpectingGitProvider);
    let shown = module.render_for_cwd("/work/repo", Some("/opt/git/bin")).map(|o| o.content).unwrap_or_default();
    assert!(shown.contains("main"), "expected the branch in: {shown}");
    assert!(module.render_for_cwd("/elsewhere", Some("/opt/git/bin")).is_none());
    assert!(module.render_for_cwd("/work/repo", None).is_none());
}
