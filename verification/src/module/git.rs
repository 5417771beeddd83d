//! Git module — displays git branch and working tree status.
//!
//! The status comes from `git status --porcelain=v2 --branch --show-stash`
//! output, which [`parse_porcelain_v2`] turns into a [`GitStatus`], and from
//! the sentinel files of the git directory, which [`detect_git_state`] reads
//! from a [`GitDirFacts`] record.
use vstd::prelude::*;

use super::{Module, ModuleOutput, ModuleSpeed, RenderContext};
use crate::render::style::{Color, ColorMap, Style, default_color_map, paint_spec, paintable};
use crate::text::{
    append_chars, chars_eq_str, chars_of, decimal, has_prefix, is_ws, parse_usize,
    parse_usize_spec, push_decimal, push_str_chars, scan, scan_lf, slice_chars, split_whitespace,
    starts_with, stop_lf, string_from_chars, strip_prefix, strip_prefix_spec, trim, trim_chars,
    utf8_bytes, utf8_len, utf8_prefix, utf8_prefix_of, words, words_from, lemma_scan, stop_ws,
    stop_non_ws,
};

verus! {

/// Errors that can occur when querying git.
#[derive(Debug, Clone, PartialEq, Eq)]
pub enum GitError {
    /// Failed to execute the git command (with the reason).
    Command(String),
}

/// Ongoing git operation kind.
#[derive(Debug, Clone, Copy, PartialEq, Eq, Structural)]
pub enum GitState {
    /// Interactive or non-interactive rebase in progress.
    Rebase,
    /// Applying patches via `git am`.
    Am,
    /// Merge in progress.
    Merge,
    /// Cherry-pick in progress.
    CherryPick,
    /// Revert in progress.
    Revert,
    /// Bisect session in progress.
    Bisect,
}

/// The label shown for an operation kind.
pub open spec fn state_label(state: GitState) -> Seq<char> {
    match state {
        GitState::Rebase => "REBASING"@,
        GitState::Am => "AM"@,
        GitState::Merge => "MERGING"@,
        GitState::CherryPick => "CHERRY-PICKING"@,
        GitState::Revert => "REVERTING"@,
        GitState::Bisect => "BISECTING"@,
    }
}

impl GitState {
    /// The label of this operation kind (e.g. `REBASING`).
    pub fn to_string(&self) -> (r: String)
        ensures
            r@ == state_label(*self),
    {
        match self {
            GitState::Rebase => "REBASING".to_owned(),
            GitState::Am => "AM".to_owned(),
            GitState::Merge => "MERGING".to_owned(),
            GitState::CherryPick => "CHERRY-PICKING".to_owned(),
            GitState::Revert => "REVERTING".to_owned(),
            GitState::Bisect => "BISECTING".to_owned(),
        }
    }
}

/// Detected in-progress git operation with optional step progress.
#[derive(Debug, Clone, Copy, PartialEq, Eq, Structural)]
pub struct GitOperationState {
    /// The kind of operation.
    pub state: GitState,
    /// Current step (1-based), if applicable (rebase / am).
    pub step: Option<usize>,
    /// Total steps, if applicable (rebase / am).
    pub total: Option<usize>,
}

impl GitOperationState {
    /// Create an operation state with no step progress.
    pub fn without_progress(state: GitState) -> (r: Self)
        ensures
            r == (GitOperationState { state, step: None, total: None }),
    {
        GitOperationState { state, step: None, total: None }
    }
}

/// Git repository status information.
#[derive(Debug, Clone, PartialEq, Eq)]
pub struct GitStatus {
    /// Current branch name, or `None` if detached.
    pub branch: Option<String>,
    /// Full object id from `# branch.oid` (hex), set when git reports branch metadata.
    pub head_oid: Option<String>,
    /// Number of staged changes.
    pub staged: usize,
    /// Number of unstaged modifications.
    pub modified: usize,
    /// Number of untracked files.
    pub untracked: usize,
    /// Number of conflicted files.
    pub conflicted: usize,
    /// Number of stashed entries.
    pub stashed: usize,
    /// Number of deleted files.
    pub deleted: usize,
    /// Number of renamed files.
    pub renamed: usize,
    /// Commits ahead of upstream.
    pub ahead: usize,
    /// Commits behind upstream.
    pub behind: usize,
    /// Ongoing git operation (rebase, merge, etc.), if any.
    pub state: Option<GitOperationState>,
}

/// The mathematical content of a [`GitStatus`].
pub struct GitModel {
    pub branch: Option<Seq<char>>,
    pub head_oid: Option<Seq<char>>,
    pub staged: int,
    pub modified: int,
    pub untracked: int,
    pub conflicted: int,
    pub stashed: int,
    pub deleted: int,
    pub renamed: int,
    pub ahead: int,
    pub behind: int,
    pub state: Option<GitOperationState>,
}

/// The character view of an optional string.
pub open spec fn opt_view(s: Option<String>) -> Option<Seq<char>> {
    match s {
        Some(v) => Some(v@),
        None => None,
    }
}

impl View for GitStatus {
    type V = GitModel;

    open spec fn view(&self) -> GitModel {
        GitModel {
            branch: opt_view(self.branch),
            head_oid: opt_view(self.head_oid),
            staged: self.staged as int,
            modified: self.modified as int,
            untracked: self.untracked as int,
            conflicted: self.conflicted as int,
            stashed: self.stashed as int,
            deleted: self.deleted as int,
            renamed: self.renamed as int,
            ahead: self.ahead as int,
            behind: self.behind as int,
            state: self.state,
        }
    }
}

/// The status of a clean repository with no branch information.
pub open spec fn empty_model() -> GitModel {
    GitModel {
        branch: None,
        head_oid: None,
        staged: 0,
        modified: 0,
        untracked: 0,
        conflicted: 0,
        stashed: 0,
        deleted: 0,
        renamed: 0,
        ahead: 0,
        behind: 0,
        state: None,
    }
}

impl Default for GitStatus {
    fn default() -> (r: Self)
        ensures
            r@ == empty_model(),
    {
        GitStatus {
            branch: None,
            head_oid: None,
            staged: 0,
            modified: 0,
            untracked: 0,
            conflicted: 0,
            stashed: 0,
            deleted: 0,
            renamed: 0,
            ahead: 0,
            behind: 0,
            state: None,
        }
    }
}

// ---------------------------------------------------------------------------
// Parsing
// ---------------------------------------------------------------------------

/// The number parsed from `s`, or 0 when it is not a valid `usize`.
pub open spec fn parse_or_zero(s: Seq<char>) -> int {
    match parse_usize_spec(s) {
        Some(n) => n as int,
        None => 0,
    }
}

/// Applies one word of a `# branch.ab +A -B` header.
pub open spec fn ab_word(m: GitModel, w: Seq<char>) -> GitModel {
    if has_prefix(w, seq!['+']) {
        GitModel { ahead: parse_or_zero(w.drop_first()), ..m }
    } else if has_prefix(w, seq!['-']) {
        GitModel { behind: parse_or_zero(w.drop_first()), ..m }
    } else {
        m
    }
}

/// Applies the words `ws` of a `# branch.ab` header in order.
pub open spec fn ab_words(m: GitModel, ws: Seq<Seq<char>>) -> GitModel
    decreases ws.len(),
{
    if ws.len() == 0 {
        m
    } else {
        ab_words(ab_word(m, ws[0]), ws.drop_first())
    }
}

/// Whether the UTF-8 encoding of the `XY` field has at least two bytes.
pub open spec fn xy_two_bytes(xy: Seq<char>) -> bool {
    xy.len() >= 2 || (xy.len() == 1 && utf8_len(xy[0]) >= 2)
}

/// The second byte of the `XY` field, when it is an ASCII character
/// (a multi-byte first character makes it a continuation byte).
pub open spec fn xy_second(xy: Seq<char>) -> Option<char> {
    if xy.len() >= 2 && utf8_len(xy[0]) == 1 {
        Some(xy[1])
    } else {
        None
    }
}

/// Counts one `1 XY ...` / `2 XY ...` changed entry.
pub open spec fn changed_entry(m: GitModel, line: Seq<char>) -> GitModel {
    let ws = words(line);
    let m1 = if ws.len() >= 2 && xy_two_bytes(ws[1]) {
        let xy = ws[1];
        GitModel {
            staged: m.staged + if xy[0] != '.' { 1int } else { 0int },
            modified: m.modified + if xy_second(xy) != Some('.') { 1int } else { 0int },
            deleted: m.deleted + if xy[0] == 'D' || xy_second(xy) == Some('D') { 1int } else { 0int },
            ..m
        }
    } else {
        m
    };
    if has_prefix(line, "2 "@) {
        GitModel { renamed: m1.renamed + 1, ..m1 }
    } else {
        m1
    }
}

/// Applies one line of porcelain v2 output.
pub open spec fn porcelain_line(m: GitModel, line: Seq<char>) -> GitModel {
    if let Some(rest) = strip_prefix_spec(line, "# branch.oid "@) {
        let oid = trim(rest);
        if oid.len() > 0 { GitModel { head_oid: Some(oid), ..m } } else { m }
    } else if let Some(rest) = strip_prefix_spec(line, "# branch.head "@) {
        GitModel { branch: if rest == "(detached)"@ { None } else { Some(rest) }, ..m }
    } else if let Some(rest) = strip_prefix_spec(line, "# branch.ab "@) {
        ab_words(m, words(rest))
    } else if let Some(rest) = strip_prefix_spec(line, "# stash "@) {
        GitModel { stashed: parse_or_zero(rest), ..m }
    } else if has_prefix(line, "1 "@) || has_prefix(line, "2 "@) {
        changed_entry(m, line)
    } else if has_prefix(line, "u "@) {
        GitModel { conflicted: m.conflicted + 1, ..m }
    } else if has_prefix(line, "? "@) {
        GitModel { untracked: m.untracked + 1, ..m }
    } else {
        m
    }
}

/// A changed-entry line `1 XY ...` (or `2 XY ...`): the kind, a space, the
/// index status `x` and work-tree status `y`, then the rest of the fields.
pub open spec fn changed_line(kind: char, x: char, y: char, tail: Seq<char>) -> Seq<char> {
    seq![kind, ' ', x, y] + tail
}

proof fn lemma_changed_line_words(kind: char, x: char, y: char, tail: Seq<char>)
    requires
        !is_ws(kind),
        !is_ws(x),
        !is_ws(y),
        tail.len() == 0 || is_ws(tail[0]),
    ensures
        words(changed_line(kind, x, y, tail)).len() >= 2,
        words(changed_line(kind, x, y, tail))[1] == seq![x, y],
{
    let l = changed_line(kind, x, y, tail);
    assert(l[0] == kind && l[1] == ' ' && l[2] == x && l[3] == y);
    assert(is_ws(' ')) by {
        assert((' ' as u32) == 0x20);
    }
    assert(scan(l, 0, stop_non_ws()) == 0);
    assert(scan(l, 1, stop_ws()) == 1);
    assert(scan(l, 0, stop_ws()) == 1);
    assert(scan(l, 2, stop_non_ws()) == 2);
    assert(scan(l, 1, stop_non_ws()) == 2);
    if tail.len() > 0 {
        assert(l[4] == tail[0]);
    }
    assert(scan(l, 4, stop_ws()) == 4);
    assert(scan(l, 3, stop_ws()) == 4);
    assert(scan(l, 2, stop_ws()) == 4);
    let rest = words_from(l, 4);
    assert(words_from(l, 1) == seq![l.subrange(2, 4)] + rest);
    assert(words_from(l, 0) == seq![l.subrange(0, 1)] + words_from(l, 1));
    assert(l.subrange(2, 4) =~= seq![x, y]);
}

/// Staged-count law: a changed-entry line counts one staged change exactly
/// when its index status is not `.` (`A`, `M`, `D`, `R`, ... all count).
pub proof fn lemma_changed_entry_counts_staged(m: GitModel, kind: char, x: char, y: char, tail: Seq<char>)
    requires
        kind == '1' || kind == '2',
        !is_ws(x),
        !is_ws(y),
        tail.len() == 0 || is_ws(tail[0]),
    ensures
        porcelain_line(m, changed_line(kind, x, y, tail)).staged == m.staged + if x != '.' { 1int } else { 0int },
        !tail.contains('\n') ==> porcelain_spec(changed_line(kind, x, y, tail)).staged == if x != '.' {
            1int
        } else {
            0int
        },
{
    let l = changed_line(kind, x, y, tail);
    assert(!is_ws(kind)) by {
        assert(('1' as u32) == 0x31);
        assert(('2' as u32) == 0x32);
    }
    lemma_changed_line_words(kind, x, y, tail);
    reveal_strlit("# branch.oid ");
    reveal_strlit("# branch.head ");
    reveal_strlit("# branch.ab ");
    reveal_strlit("# stash ");
    reveal_strlit("1 ");
    reveal_strlit("2 ");
    assert(l[0] == kind);
    assert(!has_prefix(l, "# branch.oid "@)) by {
        if has_prefix(l, "# branch.oid "@) {
            assert(l.take(13)[0] == l[0]);
        }
    }
    assert(!has_prefix(l, "# branch.head "@)) by {
        if has_prefix(l, "# branch.head "@) {
            assert(l.take(14)[0] == l[0]);
        }
    }
    assert(!has_prefix(l, "# branch.ab "@)) by {
        if has_prefix(l, "# branch.ab "@) {
            assert(l.take(12)[0] == l[0]);
        }
    }
    assert(!has_prefix(l, "# stash "@)) by {
        if has_prefix(l, "# stash "@) {
            assert(l.take(8)[0] == l[0]);
        }
    }
    if kind == '1' {
        assert(l.take(2) =~= "1 "@);
    } else {
        assert(l.take(2) =~= "2 "@);
    }
    assert(porcelain_line(m, l) == changed_entry(m, l));
    if !tail.contains('\n') {
        lemma_scan(l, 0, stop_lf());
        let e = scan(l, 0, stop_lf());
        if e < l.len() {
            assert(l[e] == '\n');
            assert(tail[e - 4] == l[e]);
            assert(tail.contains('\n'));
        }
        assert(line_at(l, 0) =~= l);
        assert(porcelain_spec(l) == porcelain_line(empty_model(), l));
    }
}

/// Lines are applied one after another: a line of `s` at `i` that ends in a
/// line feed (and not in a carriage return) is applied, then the rest.
pub proof fn lemma_porcelain_line_step(m: GitModel, s: Seq<char>, i: int, line: Seq<char>)
    requires
        0 <= i,
        i + line.len() < s.len(),
        s.subrange(i, i + line.len()) == line,
        s[i + line.len()] == '\n',
        !line.contains('\n'),
        line.len() == 0 || line.last() != '\r',
    ensures
        porcelain_from(m, s, i) == porcelain_from(porcelain_line(m, line), s, i + line.len() + 1),
{
    lemma_scan(s, i, stop_lf());
    let e = scan(s, i, stop_lf());
    if e < i + line.len() {
        assert(s[e] == line[e - i]);
        assert(line.contains('\n'));
    }
    assert(e == i + line.len());
    assert(line_at(s, i) =~= line);
}

/// The line starting at `i` (up to the next line feed, without a `\r`
/// that ends a terminated line), as `str::lines` yields it.
pub open spec fn line_at(s: Seq<char>, i: int) -> Seq<char> {
    let e = scan(s, i, stop_lf());
    let raw = s.subrange(i, e);
    if e < s.len() && raw.len() > 0 && raw.last() == '\r' {
        raw.drop_last()
    } else {
        raw
    }
}

/// Applies every line of `s` from index `i` on to `m`.
pub open spec fn porcelain_from(m: GitModel, s: Seq<char>, i: int) -> GitModel
    decreases s.len() - i,
{
    if i < 0 || i >= s.len() {
        m
    } else {
        let e = scan(s, i, stop_lf());
        if e < i {
            m
        } else if e >= s.len() {
            porcelain_line(m, line_at(s, i))
        } else {
            porcelain_from(porcelain_line(m, line_at(s, i)), s, e + 1)
        }
    }
}

/// The status described by porcelain v2 output `s`.
pub open spec fn porcelain_spec(s: Seq<char>) -> GitModel {
    porcelain_from(empty_model(), s, 0)
}

/// The counters that a line can increment.
pub open spec fn counts_at_most(m: GitModel, n: int) -> bool {
    &&& m.staged <= n
    &&& m.modified <= n
    &&& m.untracked <= n
    &&& m.conflicted <= n
    &&& m.deleted <= n
    &&& m.renamed <= n
}

/// Whether `next` adds at most one to each counter of `prev` (none for short lines).
pub open spec fn counts_step(prev: GitModel, next: GitModel, line: Seq<char>) -> bool {
    let d = if line.len() >= 2 { 1int } else { 0int };
    &&& prev.staged <= next.staged <= prev.staged + d
    &&& prev.modified <= next.modified <= prev.modified + d
    &&& prev.untracked <= next.untracked <= prev.untracked + d
    &&& prev.conflicted <= next.conflicted <= prev.conflicted + d
    &&& prev.deleted <= next.deleted <= prev.deleted + d
    &&& prev.renamed <= next.renamed <= prev.renamed + d
}

proof fn lemma_ab_words_counts(m: GitModel, ws: Seq<Seq<char>>)
    ensures
        ab_words(m, ws).staged == m.staged,
        ab_words(m, ws).modified == m.modified,
        ab_words(m, ws).untracked == m.untracked,
        ab_words(m, ws).conflicted == m.conflicted,
        ab_words(m, ws).deleted == m.deleted,
        ab_words(m, ws).renamed == m.renamed,
    decreases ws.len(),
{
    if ws.len() > 0 {
        lemma_ab_words_counts(ab_word(m, ws[0]), ws.drop_first());
    }
}

fn parse_ahead_behind(s: &[char], status: &mut GitStatus)
    ensures
        final(status)@ == ab_words(old(status)@, words(s@)),
{
    let ws = split_whitespace(s);
    let mut i: usize = 0;
    assert(words(s@).skip(0) =~= words(s@));
    while i < ws.len()
        invariant
            i <= ws.len(),
            ws@.len() == words(s@).len(),
            forall|k: int| 0 <= k < ws@.len() ==> (#[trigger] ws@[k])@ == words(s@)[k],
            ab_words(status@, words(s@).skip(i as int)) == ab_words(old(status)@, words(s@)),
        decreases ws.len() - i,
    {
        let w = &ws[i];
        let ghost before = status@;
        assert(words(s@).skip(i as int)[0] == w@);
        assert(words(s@).skip(i as int).drop_first() =~= words(s@).skip(i as int + 1));
        if w.len() > 0 && w[0] == '+' {
            let n = slice_chars(w.as_slice(), 1, w.len());
            assert(n@ =~= w@.drop_first());
            assert(has_prefix(w@, seq!['+'])) by {
                assert(w@.take(1) =~= seq!['+']);
            }
            status.ahead = match parse_usize(n.as_slice()) {
                Some(v) => v,
                None => 0,
            };
        } else if w.len() > 0 && w[0] == '-' {
            let n = slice_chars(w.as_slice(), 1, w.len());
            assert(n@ =~= w@.drop_first());
            assert(has_prefix(w@, seq!['-'])) by {
                assert(w@.take(1) =~= seq!['-']);
            }
            assert(w@.take(1)[0] == w@[0]);
            assert(!has_prefix(w@, seq!['+']));
            status.behind = match parse_usize(n.as_slice()) {
                Some(v) => v,
                None => 0,
            };
        } else {
            proof {
                if w@.len() > 0 {
                    assert(w@.take(1)[0] == w@[0]);
                }
            }
            assert(!has_prefix(w@, seq!['+']));
            assert(!has_prefix(w@, seq!['-']));
        }
        assert(status@ == ab_word(before, w@));
        i = i + 1;
    }
    assert(words(s@).skip(ws.len() as int) =~= Seq::<Seq<char>>::empty());
}

fn parse_changed_entry(line: &[char], status: &mut GitStatus)
    requires
        has_prefix(line@, "1 "@) || has_prefix(line@, "2 "@),
        counts_at_most(old(status)@, usize::MAX - 1),
    ensures
        final(status)@ == changed_entry(old(status)@, line@),
{
    let ws = split_whitespace(line);
    if ws.len() >= 2 {
        let xy = &ws[1];
        assert(xy@ == words(line@)[1]);
        let first = if xy.len() > 0 { xy[0] } else { ' ' };
        let first_ascii = (first as u32) < 0x80;
        let two = xy.len() >= 2 || (xy.len() == 1 && !first_ascii);
        if two {
            let second: Option<char> = if xy.len() >= 2 && first_ascii {
                Some(xy[1])
            } else {
                None
            };
            assert(xy_second(xy@) == second);
            if first != '.' {
                status.staged = status.staged + 1;
            }
            if second != Some('.') {
                status.modified = status.modified + 1;
            }
            if first == 'D' || second == Some('D') {
                status.deleted = status.deleted + 1;
            }
        }
    }
    if starts_with(line, "2 ") {
        status.renamed = status.renamed + 1;
    }
}

fn apply_porcelain_line(line: &[char], status: &mut GitStatus)
    requires
        counts_at_most(old(status)@, usize::MAX - 1),
    ensures
        final(status)@ == porcelain_line(old(status)@, line@),
        counts_step(old(status)@, final(status)@, line@),
{
    proof {
        reveal_strlit("1 ");
        reveal_strlit("2 ");
        reveal_strlit("u ");
        reveal_strlit("? ");
    }
    if let Some(rest) = strip_prefix(line, "# branch.oid ") {
        let oid = trim_chars(rest.as_slice());
        if oid.len() > 0 {
            status.head_oid = Some(string_from_chars(&oid));
        }
        proof {
            reveal_strlit("# branch.oid ");
        }
    } else if let Some(rest) = strip_prefix(line, "# branch.head ") {
        if chars_eq_str(rest.as_slice(), "(detached)") {
            status.branch = None;
        } else {
            status.branch = Some(string_from_chars(&rest));
        }
        proof {
            reveal_strlit("# branch.head ");
        }
    } else if let Some(rest) = strip_prefix(line, "# branch.ab ") {
        parse_ahead_behind(rest.as_slice(), status);
        proof {
            reveal_strlit("# branch.ab ");
            lemma_ab_words_counts(old(status)@, words(rest@));
        }
    } else if let Some(rest) = strip_prefix(line, "# stash ") {
        status.stashed = match parse_usize(rest.as_slice()) {
            Some(n) => n,
            None => 0,
        };
        proof {
            reveal_strlit("# stash ");
        }
    } else if starts_with(line, "1 ") || starts_with(line, "2 ") {
        parse_changed_entry(line, status);
    } else if starts_with(line, "u ") {
        status.conflicted = status.conflicted + 1;
    } else if starts_with(line, "? ") {
        status.untracked = status.untracked + 1;
    }
}

/// Parses `git status --porcelain=v2 --branch --show-stash` output.
pub fn parse_porcelain_v2(output: &str) -> (status: GitStatus)
    ensures
        status@ == porcelain_spec(output@),
{
    let s = chars_of(output);
    let mut status = GitStatus::default();
    let mut i: usize = 0;
    while i < s.len()
        invariant
            i <= s.len(),
            s@ == output@,
            porcelain_from(status@, s@, i as int) == porcelain_spec(output@),
            counts_at_most(status@, i as int),
        decreases s.len() - i,
    {
        let start = i;
        let e = scan_lf(s.as_slice(), i);
        proof {
            lemma_scan(s@, i as int, stop_lf());
        }
        let mut line = slice_chars(s.as_slice(), i, e);
        if e < s.len() && line.len() > 0 && line[line.len() - 1] == '\r' {
            line.pop();
        }
        assert(line@ == line_at(s@, i as int));
        let ghost before = status@;
        apply_porcelain_line(line.as_slice(), &mut status);
        i = if e < s.len() {
            e + 1
        } else {
            s.len()
        };
        proof {
            assert(line@.len() <= e - start);
            if e < s.len() {
                assert(porcelain_from(before, s@, start as int) == porcelain_from(
                    status@,
                    s@,
                    e + 1,
                ));
            } else {
                assert(porcelain_from(before, s@, start as int) == status@);
            }
        }
    }
    status
}


// ---------------------------------------------------------------------------
// Git directory state
// ---------------------------------------------------------------------------

/// What the sentinel files of a git directory show.
///
/// Each `Option<String>` holds the content of a progress file when it could be read.
#[derive(Debug, Clone, PartialEq, Eq)]
pub struct GitDirFacts {
    /// `rebase-merge/` is a directory.
    pub rebase_merge: bool,
    /// Content of `rebase-merge/msgnum`.
    pub rebase_merge_msgnum: Option<String>,
    /// Content of `rebase-merge/end`.
    pub rebase_merge_end: Option<String>,
    /// `rebase-apply/` is a directory.
    pub rebase_apply: bool,
    /// `rebase-apply/applying` exists.
    pub rebase_apply_applying: bool,
    /// Content of `rebase-apply/next`.
    pub rebase_apply_next: Option<String>,
    /// Content of `rebase-apply/last`.
    pub rebase_apply_last: Option<String>,
    /// `MERGE_HEAD` exists.
    pub merge_head: bool,
    /// `CHERRY_PICK_HEAD` exists.
    pub cherry_pick_head: bool,
    /// `REVERT_HEAD` exists.
    pub revert_head: bool,
    /// `BISECT_LOG` exists.
    pub bisect_log: bool,
}

/// The number held by a progress file: its trimmed content parsed as `usize`.
pub open spec fn progress_value(content: Option<String>) -> Option<usize> {
    match content {
        Some(c) => parse_usize_spec(trim(c@)),
        None => None,
    }
}

/// The in-progress operation that the sentinel files show, in git's priority order.
pub open spec fn git_state_spec(f: GitDirFacts) -> Option<GitOperationState> {
    if f.rebase_merge {
        Some(
            GitOperationState {
                state: GitState::Rebase,
                step: progress_value(f.rebase_merge_msgnum),
                total: progress_value(f.rebase_merge_end),
            },
        )
    } else if f.rebase_apply {
        Some(
            GitOperationState {
                state: if f.rebase_apply_applying { GitState::Am } else { GitState::Rebase },
                step: progress_value(f.rebase_apply_next),
                total: progress_value(f.rebase_apply_last),
            },
        )
    } else if f.merge_head {
        Some(GitOperationState { state: GitState::Merge, step: None, total: None })
    } else if f.cherry_pick_head {
        Some(GitOperationState { state: GitState::CherryPick, step: None, total: None })
    } else if f.revert_head {
        Some(GitOperationState { state: GitState::Revert, step: None, total: None })
    } else if f.bisect_log {
        Some(GitOperationState { state: GitState::Bisect, step: None, total: None })
    } else {
        None
    }
}

/// Reads the number held by a progress file's content.
pub fn read_progress(content: &Option<String>) -> (r: Option<usize>)
    ensures
        r == progress_value(*content),
{
    match content {
        Some(c) => {
            let cs = chars_of(c.as_str());
            let t = trim_chars(cs.as_slice());
            parse_usize(t.as_slice())
        },
        None => None,
    }
}

/// Detects the current in-progress git operation from the sentinel files
/// of the git directory.
///
/// Priority order matches git's own status reporting.
pub fn detect_git_state(facts: &GitDirFacts) -> (r: Option<GitOperationState>)
    ensures
        r == git_state_spec(*facts),
{
    if facts.rebase_merge {
        let step = read_progress(&facts.rebase_merge_msgnum);
        let total = read_progress(&facts.rebase_merge_end);
        return Some(GitOperationState { state: GitState::Rebase, step, total });
    }
    if facts.rebase_apply {
        let state = if facts.rebase_apply_applying {
            GitState::Am
        } else {
            GitState::Rebase
        };
        let step = read_progress(&facts.rebase_apply_next);
        let total = read_progress(&facts.rebase_apply_last);
        return Some(GitOperationState { state, step, total });
    }
    if facts.merge_head {
        return Some(GitOperationState::without_progress(GitState::Merge));
    }
    if facts.cherry_pick_head {
        return Some(GitOperationState::without_progress(GitState::CherryPick));
    }
    if facts.revert_head {
        return Some(GitOperationState::without_progress(GitState::Revert));
    }
    if facts.bisect_log {
        return Some(GitOperationState::without_progress(GitState::Bisect));
    }
    None
}

/// The target named by a `.git` worktree pointer file (`gitdir: <path>`), trimmed.
pub open spec fn gitdir_pointer_spec(content: Seq<char>) -> Option<Seq<char>> {
    match strip_prefix_spec(content, "gitdir: "@) {
        Some(rest) => Some(trim(rest)),
        None => None,
    }
}

/// Reads the target path of a `.git` worktree pointer file's content.
pub fn gitdir_pointer_target(content: &str) -> (r: Option<String>)
    ensures
        opt_view(r) == gitdir_pointer_spec(content@),
{
    let cs = chars_of(content);
    match strip_prefix(cs.as_slice(), "gitdir: ") {
        Some(rest) => {
            let t = trim_chars(rest.as_slice());
            Some(string_from_chars(&t))
        },
        None => None,
    }
}

// ---------------------------------------------------------------------------
// Formatting
// ---------------------------------------------------------------------------

/// Bundled style configuration for git output rendering.
#[derive(Debug, Clone, Copy, PartialEq, Eq, Structural)]
pub struct GitStyles {
    /// Style for the branch name and icon.
    pub branch: Style,
    /// Style for `(hash)` in detached `HEAD (hash)`.
    pub detached_hash: Style,
    /// Style for status indicators (e.g., `[!+]`).
    pub indicator: Style,
    /// Style for operation state labels (e.g., `(REBASING 2/5)`).
    pub state: Style,
    /// ANSI color code overrides.
    pub color_map: ColorMap,
}

/// Bold magenta branch, dimmed green hash, bold red indicators, bold yellow state.
pub open spec fn default_git_styles() -> GitStyles {
    GitStyles {
        branch: Style { fg: Some(Color::Magenta), bold: true, dimmed: false },
        detached_hash: Style { fg: Some(Color::Green), bold: false, dimmed: true },
        indicator: Style { fg: Some(Color::Red), bold: true, dimmed: false },
        state: Style { fg: Some(Color::Yellow), bold: true, dimmed: false },
        color_map: default_color_map(),
    }
}

impl Default for GitStyles {
    fn default() -> (r: Self)
        ensures
            r == default_git_styles(),
    {
        GitStyles {
            branch: Style::new().fg(Color::Magenta).bold(),
            detached_hash: Style::new().fg(Color::Green).dimmed(),
            indicator: Style::new().fg(Color::Red).bold(),
            state: Style::new().fg(Color::Yellow).bold(),
            color_map: ColorMap::default(),
        }
    }
}

/// Short hash length inside detached `HEAD (hash)` (common `git rev-parse --short` width).
pub const DETACHED_OID_PREFIX_LEN: usize = 7;

/// The first `DETACHED_OID_PREFIX_LEN` bytes of an object id, as characters.
pub open spec fn oid_prefix(oid: Seq<char>) -> Seq<char> {
    utf8_prefix(oid, DETACHED_OID_PREFIX_LEN as int)
}

/// Whether cutting `oid` after `DETACHED_OID_PREFIX_LEN` bytes lands on a
/// character boundary (always so for the ASCII hex ids that git prints).
pub open spec fn oid_sliceable(oid: Seq<char>) -> bool {
    let n = DETACHED_OID_PREFIX_LEN as int;
    utf8_bytes(oid_prefix(oid)) == if utf8_bytes(oid) < n { utf8_bytes(oid) as int } else { n }
}

/// The short form of `full_oid`: its first `DETACHED_OID_PREFIX_LEN` bytes.
pub fn short_commit_prefix(full_oid: &str) -> (r: String)
    requires
        oid_sliceable(full_oid@),
    ensures
        r@ == oid_prefix(full_oid@),
{
    let cs = chars_of(full_oid);
    let (p, _, _) = utf8_prefix_of(cs.as_slice(), DETACHED_OID_PREFIX_LEN);
    string_from_chars(&p)
}

/// Whether [`short_commit_prefix`] can shorten `full_oid`.
pub fn is_oid_sliceable(full_oid: &str) -> (r: bool)
    ensures
        r == oid_sliceable(full_oid@),
{
    let cs = chars_of(full_oid);
    let (_, b, t) = utf8_prefix_of(cs.as_slice(), DETACHED_OID_PREFIX_LEN);
    let n = DETACHED_OID_PREFIX_LEN;
    b == if t < n {
        t
    } else {
        n
    }
}

/// `(STATE step/total)` when both progress numbers are known, else `(STATE)`.
pub open spec fn state_text(op: GitOperationState) -> Seq<char> {
    match (op.step, op.total) {
        (Some(step), Some(total)) => seq!['('] + state_label(op.state) + seq![' '] + decimal(
            step as nat,
        ) + seq!['/'] + decimal(total as nat) + seq![')'],
        _ => seq!['('] + state_label(op.state) + seq![')'],
    }
}

/// Appends the state label of `op_state` to `buf`.
pub fn write_state(buf: &mut String, op_state: &GitOperationState)
    ensures
        final(buf)@ == old(buf)@ + state_text(*op_state),
{
    let mut out: Vec<char> = Vec::new();
    out.push('(');
    let label = op_state.state.to_string();
    push_str_chars(&mut out, label.as_str());
    match (op_state.step, op_state.total) {
        (Some(step), Some(total)) => {
            out.push(' ');
            push_decimal(&mut out, step as u64);
            out.push('/');
            push_decimal(&mut out, total as u64);
        },
        _ => {},
    }
    out.push(')');
    append_chars(buf, &out);
    proof {
        assert(out@ =~= state_text(*op_state));
    }
}

/// The status indicators in Starship order: `= $ ✘ » ! + ?` then `⇕`, `⇡` or `⇣`.
pub open spec fn indicators(m: GitModel) -> Seq<char> {
    (if m.conflicted > 0 { seq!['='] } else { Seq::empty() }) + (if m.stashed > 0 {
        seq!['$']
    } else {
        Seq::empty()
    }) + (if m.deleted > 0 { seq!['\u{2718}'] } else { Seq::empty() }) + (if m.renamed > 0 {
        seq!['\u{bb}']
    } else {
        Seq::empty()
    }) + (if m.modified > 0 { seq!['!'] } else { Seq::empty() }) + (if m.staged > 0 {
        seq!['+']
    } else {
        Seq::empty()
    }) + (if m.untracked > 0 { seq!['?'] } else { Seq::empty() }) + (if m.ahead > 0 && m.behind
        > 0 {
        seq!['\u{21d5}']
    } else if m.ahead > 0 {
        seq!['\u{21e1}']
    } else if m.behind > 0 {
        seq!['\u{21e3}']
    } else {
        Seq::empty()
    })
}

/// `s` followed by a space when it is not empty.
pub open spec fn with_sep(s: Seq<char>) -> Seq<char> {
    if s.len() > 0 { s.push(' ') } else { s }
}

/// The branch part: the painted branch name, or `HEAD (hash)` when detached.
pub open spec fn head_text(m: GitModel, st: GitStyles) -> Seq<char> {
    match m.branch {
        Some(b) => paint_spec(st.branch, b, st.color_map),
        None => match m.head_oid {
            Some(oid) => {
                let p = oid_prefix(oid);
                if p.len() > 0 {
                    paint_spec(st.branch, "HEAD "@, st.color_map) + paint_spec(
                        st.detached_hash,
                        seq!['('] + p + seq![')'],
                        st.color_map,
                    )
                } else {
                    Seq::empty()
                }
            },
            None => Seq::empty(),
        },
    }
}

/// The whole git segment: branch part, operation state and bracketed
/// indicators, separated by single spaces.
pub open spec fn git_output(m: GitModel, st: GitStyles) -> Seq<char> {
    let head = head_text(m, st);
    let with_state = match m.state {
        Some(op) => with_sep(head) + paint_spec(st.state, state_text(op), st.color_map),
        None => head,
    };
    let ind = indicators(m);
    if ind.len() > 0 {
        with_sep(with_state) + paint_spec(st.indicator, seq!['['] + ind + seq![']'], st.color_map)
    } else {
        with_state
    }
}

/// Whether the detached head of `m` can be shortened (the only input on which
/// formatting could fail).
pub open spec fn renderable(m: GitModel) -> bool {
    m.branch is None ==> (m.head_oid matches Some(oid) ==> oid_sliceable(oid))
}

/// Whether `s` holds the character `c`.
fn push_if(out: &mut Vec<char>, cond: bool, c: char)
    ensures
        final(out)@ == old(out)@ + if cond { seq![c] } else { Seq::empty() },
{
    if cond {
        out.push(c);
    }
    proof {
        assert(old(out)@ + Seq::<char>::empty() =~= old(out)@);
    }
}

fn push_sep(out: &mut Vec<char>)
    ensures
        final(out)@ == with_sep(old(out)@),
{
    if out.len() > 0 {
        out.push(' ');
    }
}

proof fn lemma_wf_paintable(style: Style, cm: ColorMap)
    requires
        cm.wf(),
    ensures
        paintable(style, cm),
{
}

fn head_part(status: &GitStatus, styles: &GitStyles) -> (out: Vec<char>)
    requires
        styles.color_map.wf(),
        renderable(status@),
    ensures
        out@ == head_text(status@, *styles),
{
    let cm = styles.color_map;
    proof {
        lemma_wf_paintable(styles.branch, cm);
        lemma_wf_paintable(styles.detached_hash, cm);
    }
    let mut out: Vec<char> = Vec::new();
    match &status.branch {
        Some(branch) => {
            let painted = styles.branch.paint_with(branch.as_str(), cm);
            push_str_chars(&mut out, painted.as_str());
        },
        None => match &status.head_oid {
            Some(oid) => {
                let prefix = short_commit_prefix(oid.as_str());
                if prefix.as_str().unicode_len() > 0 {
                    let head = styles.branch.paint_with("HEAD ", cm);
                    push_str_chars(&mut out, head.as_str());
                    let mut paren: Vec<char> = Vec::new();
                    paren.push('(');
                    push_str_chars(&mut paren, prefix.as_str());
                    paren.push(')');
                    let paren_s = string_from_chars(&paren);
                    let hash = styles.detached_hash.paint_with(paren_s.as_str(), cm);
                    push_str_chars(&mut out, hash.as_str());
                }
            },
            None => {},
        },
    }
    out
}

fn indicator_chars(status: &GitStatus) -> (ind: Vec<char>)
    ensures
        ind@ == indicators(status@),
{
    let mut ind: Vec<char> = Vec::new();
    push_if(&mut ind, status.conflicted > 0, '=');
    push_if(&mut ind, status.stashed > 0, '$');
    push_if(&mut ind, status.deleted > 0, '\u{2718}');
    push_if(&mut ind, status.renamed > 0, '\u{bb}');
    push_if(&mut ind, status.modified > 0, '!');
    push_if(&mut ind, status.staged > 0, '+');
    push_if(&mut ind, status.untracked > 0, '?');
    if status.ahead > 0 && status.behind > 0 {
        ind.push('\u{21d5}');
    } else if status.ahead > 0 {
        ind.push('\u{21e1}');
    } else if status.behind > 0 {
        ind.push('\u{21e3}');
    }
    assert(ind@ =~= indicators(status@));
    ind
}

fn bracketed(ind: &Vec<char>) -> (r: String)
    ensures
        r@ == seq!['['] + ind@ + seq![']'],
{
    let mut b: Vec<char> = Vec::new();
    b.push('[');
    let mut k: usize = 0;
    while k < ind.len()
        invariant
            k <= ind.len(),
            b@ == seq!['['] + ind@.take(k as int),
        decreases ind.len() - k,
    {
        b.push(ind[k]);
        k = k + 1;
        assert(ind@.take(k as int) =~= ind@.take((k - 1) as int).push(ind@[k - 1]));
    }
    b.push(']');
    assert(ind@.take(ind.len() as int) =~= ind@);
    assert(b@ =~= seq!['['] + ind@ + seq![']']);
    string_from_chars(&b)
}

/// Formats the git segment for `status`.
pub fn format_git_output(status: &GitStatus, styles: &GitStyles) -> (r: String)
    requires
        styles.color_map.wf(),
        renderable(status@),
    ensures
        r@ == git_output(status@, *styles),
{
    let cm = styles.color_map;
    proof {
        lemma_wf_paintable(styles.state, cm);
        lemma_wf_paintable(styles.indicator, cm);
    }
    let mut out = head_part(status, styles);
    let ghost head = out@;
    if let Some(op_state) = &status.state {
        push_sep(&mut out);
        let mut state_buf = String::new();
        write_state(&mut state_buf, op_state);
        let painted = styles.state.paint_with(state_buf.as_str(), cm);
        push_str_chars(&mut out, painted.as_str());
    }
    let ind = indicator_chars(status);
    if ind.len() > 0 {
        push_sep(&mut out);
        let b = bracketed(&ind);
        let painted = styles.indicator.paint_with(b.as_str(), cm);
        push_str_chars(&mut out, painted.as_str());
    }
    string_from_chars(&out)
}

/// Renders `status` as module output, or `None` when there is nothing to show.
pub fn render_status_with_styles(status: &GitStatus, styles: &GitStyles) -> (r: Option<
    ModuleOutput,
>)
    requires
        styles.color_map.wf(),
        renderable(status@),
    ensures
        r is None <==> git_output(status@, *styles).len() == 0,
        r matches Some(o) ==> o.content@ == git_output(status@, *styles),
{
    let content = format_git_output(status, styles);
    if content.as_str().unicode_len() == 0 {
        return None;
    }
    Some(ModuleOutput { content })
}

/// Whether `status` can be rendered (its detached head, if shown, can be shortened).
pub fn status_renderable(status: &GitStatus) -> (r: bool)
    ensures
        r == renderable(status@),
{
    match (&status.branch, &status.head_oid) {
        (None, Some(oid)) => is_oid_sliceable(oid.as_str()),
        _ => true,
    }
}

// ---------------------------------------------------------------------------
// Module
// ---------------------------------------------------------------------------

/// Provides git repository information.
///
/// The provider that spawns `git` is part of the program, not of this
/// library, so the trait is open to implementations outside it. Nothing is
/// assumed of what a provider returns; [`GitModule::render_for_cwd`] states
/// what it hands to the provider and how it renders any answer.
pub trait GitProvider {
    /// Query the git status of the repository at `cwd`.
    ///
    /// `path_env` overrides the `PATH` environment variable for the spawned
    /// process. Returns `Ok(None)` if `cwd` is not inside a git repository.
    fn status(&self, cwd: &str, path_env: Option<&str>) -> Result<Option<GitStatus>, GitError>;
}

/// Displays git branch and working tree status.
///
/// Returns `None` when not inside a git repository.
#[derive(Debug)]
pub struct GitModule<G> {
    provider: G,
    styles: GitStyles,
}

impl<G> GitModule<G> {
    #[verifier::type_invariant]
    spec fn inv(self) -> bool {
        self.styles.color_map.wf()
    }

    /// The styles this module renders with.
    pub closed spec fn styles_spec(self) -> GitStyles {
        self.styles
    }

    /// Creates a new `GitModule` with the given provider and default styles.
    pub fn new(provider: G) -> (r: Self)
        ensures
            r.styles_spec() == default_git_styles(),
    {
        GitModule { provider, styles: GitStyles::default() }
    }

    /// Creates a new `GitModule` with explicit styles.
    pub fn with_styles(provider: G, styles: GitStyles) -> (r: Self)
        requires
            styles.color_map.wf(),
        ensures
            r.styles_spec() == styles,
    {
        GitModule { provider, styles }
    }

    /// Renders a known status with this module's styles.
    pub fn render_status(&self, status: &GitStatus) -> (r: Option<ModuleOutput>)
        requires
            renderable(status@),
        ensures
            r is None <==> git_output(status@, self.styles_spec()).len() == 0,
            r matches Some(o) ==> o.content@ == git_output(status@, self.styles_spec()),
    {
        proof {
            use_type_invariant(self);
        }
        render_status_with_styles(status, &self.styles)
    }
}

/// `r` is what rendering a provider's report `result` with `styles` gives:
/// nothing for an error or "not a repository", nothing for a status whose
/// detached head cannot be shortened, else the status as [`git_output`]
/// describes (nothing when that text is empty).
pub open spec fn provider_rendering(
    result: Result<Option<GitStatus>, GitError>,
    styles: GitStyles,
    r: Option<ModuleOutput>,
) -> bool {
    match result {
        Ok(Some(s)) => if renderable(s@) {
            &&& (r is None <==> git_output(s@, styles).len() == 0)
            &&& (r matches Some(o) ==> o.content@ == git_output(s@, styles))
        } else {
            r is None
        },
        _ => r is None,
    }
}

impl<G> GitModule<G> {
    /// The provider this module asks.
    pub closed spec fn provider_spec(self) -> G {
        self.provider
    }

    /// Renders what a provider reported, as [`provider_rendering`] states.
    pub fn render_provider_result(&self, result: Result<Option<GitStatus>, GitError>) -> (r: Option<ModuleOutput>)
        ensures
            provider_rendering(result, self.styles_spec(), r),
    {
        let status = match result {
            Ok(Some(s)) => s,
            Ok(None) => return None,
            Err(_) => return None,
        };
        if !status_renderable(&status) {
            return None;
        }
        self.render_status(&status)
    }
}

impl<G: GitProvider> GitModule<G> {
    /// Renders git status for the given working directory.
    ///
    /// Asks the provider about `cwd`, with `path_env` as the `PATH` override,
    /// and renders its report as [`provider_rendering`] states. The report
    /// depends on the repository on disk, so nothing more is known of it than
    /// that the provider gave it for exactly these arguments.
    pub fn render_for_cwd(&self, cwd: &str, path_env: Option<&str>) -> (r: Option<ModuleOutput>)
        ensures
            exists|result: Result<Option<GitStatus>, GitError>|
                call_ensures(G::status, (&self.provider_spec(), cwd, path_env), result)
                    && provider_rendering(result, self.styles_spec(), r),
    {
        let query = G::status;
        let result = query(&self.provider, cwd, path_env);
        self.render_provider_result(result)
    }
}

impl<G: GitProvider> crate::sealed::Sealed for GitModule<G> {}

impl<G: GitProvider> Module for GitModule<G> {
    fn name(&self) -> (r: &'static str)
        ensures
            r@ == "git"@,
    {
        "git"
    }

    fn speed(&self) -> (r: ModuleSpeed)
        ensures
            r == ModuleSpeed::Slow,
    {
        ModuleSpeed::Slow
    }

    fn render(&self, ctx: &RenderContext<'_>) -> (r: Option<ModuleOutput>)
        ensures
            exists|result: Result<Option<GitStatus>, GitError>|
                call_ensures(G::status, (&self.provider_spec(), ctx.cwd, None::<&str>), result)
                    && provider_rendering(result, self.styles_spec(), r),
    {
        self.render_for_cwd(ctx.cwd, None)
    }
}

} // verus!
