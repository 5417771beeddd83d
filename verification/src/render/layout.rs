//! Display width calculation and string truncation.
//!
//! Handles ANSI escape sequences, zsh `%{..%}` prompt escapes, and
//! CJK double-width characters.
use vstd::prelude::*;

use crate::text::{chars_of, string_from_chars};

verus! {

/// Width that the Unicode East Asian Width tables assign to a non-control,
/// non-ASCII character (`unicode_width` table lookup).
pub uninterp spec fn unicode_table_width(c: char) -> usize;

/// What `UnicodeWidthChar::width` returns for `c`: one column for printable
/// ASCII, `None` for control characters, one column for the ellipsis (an
/// East Asian "Ambiguous" character, counted narrow), and the table width otherwise.
pub open spec fn char_width_spec(c: char) -> Option<usize> {
    if (c as int) < 0x20 {
        None
    } else if (c as int) < 0x7f {
        Some(1usize)
    } else if (c as int) < 0xa0 {
        None
    } else if c == '\u{2026}' {
        Some(1usize)
    } else {
        Some(unicode_table_width(c))
    }
}

/// Display columns of a single character as counted by the layout code
/// (control characters count as zero).
pub open spec fn char_cols(c: char) -> nat {
    match char_width_spec(c) {
        Some(w) => w as nat,
        None => 0,
    }
}

/// `UnicodeWidthChar::width` from the `unicode-width` crate.
///
/// As the crate's source shows, printable ASCII is one column wide and the
/// C0/C1 control characters have no width (`None`); other characters are looked
/// up in the Unicode width tables, whose entries are at most 3. The documentation
/// counts East Asian "Ambiguous" characters, such as the ellipsis U+2026, as one
/// column. The table values themselves are not stated.
#[verifier::external_body]
fn unicode_char_width(c: char) -> (w: Option<usize>)
    ensures
        w == char_width_spec(c),
        (c as int) >= 0xa0 && c != '\u{2026}' ==> w == Some(unicode_table_width(c)),
        w matches Some(n) ==> n <= 3,
{
    unicode_width::UnicodeWidthChar::width(c)
}

/// Whether `c` terminates an ANSI CSI sequence (`0x40..=0x7E`).
pub open spec fn csi_final(c: char) -> bool {
    0x40 <= (c as int) && (c as int) <= 0x7e
}

/// Number of characters an unterminated-or-terminated CSI body consumes:
/// everything up to and including the first final byte, or all of `t`.
pub open spec fn csi_len(t: Seq<char>) -> nat
    decreases t.len(),
{
    if t.len() == 0 {
        0
    } else if csi_final(t[0]) {
        1
    } else {
        1 + csi_len(t.skip(1))
    }
}

/// Whether a CSI body in `t` is terminated by a final byte.
pub open spec fn csi_closes(t: Seq<char>) -> bool
    decreases t.len(),
{
    if t.len() == 0 {
        false
    } else if csi_final(t[0]) {
        true
    } else {
        csi_closes(t.skip(1))
    }
}

/// Number of characters a zsh `%{..%}` body consumes: everything up to and
/// including the first `%}`, or all of `t`.
pub open spec fn zsh_len(t: Seq<char>) -> nat
    decreases t.len(),
{
    if t.len() == 0 {
        0
    } else if t[0] == '%' && t.len() > 1 && t[1] == '}' {
        2
    } else {
        1 + zsh_len(t.skip(1))
    }
}

/// Whether a zsh escape body in `t` is terminated by `%}`.
pub open spec fn zsh_closes(t: Seq<char>) -> bool
    decreases t.len(),
{
    if t.len() == 0 {
        false
    } else if t[0] == '%' && t.len() > 1 && t[1] == '}' {
        true
    } else {
        zsh_closes(t.skip(1))
    }
}

pub proof fn lemma_csi_len_bound(t: Seq<char>)
    ensures
        csi_len(t) <= t.len(),
        csi_len(t) < t.len() ==> csi_closes(t),
        csi_closes(t) ==> csi_len(t) > 0 && csi_final(t[csi_len(t) - 1]),
    decreases t.len(),
{
    if t.len() > 0 && !csi_final(t[0]) {
        lemma_csi_len_bound(t.skip(1));
    }
}

pub proof fn lemma_zsh_len_bound(t: Seq<char>)
    ensures
        zsh_len(t) <= t.len(),
        zsh_len(t) < t.len() ==> zsh_closes(t),
    decreases t.len(),
{
    if t.len() > 0 && !(t[0] == '%' && t.len() > 1 && t[1] == '}') {
        lemma_zsh_len_bound(t.skip(1));
    }
}

/// Starts a CSI escape: `ESC [`.
pub open spec fn starts_csi(s: Seq<char>) -> bool {
    s.len() > 1 && s[0] == '\x1b' && s[1] == '['
}

/// Starts a zsh zero-width escape: `%{`.
pub open spec fn starts_zsh(s: Seq<char>) -> bool {
    s.len() > 1 && s[0] == '%' && s[1] == '{'
}

/// Starts an escaped percent sign: `%%`.
pub open spec fn starts_pct_pair(s: Seq<char>) -> bool {
    s.len() > 1 && s[0] == '%' && s[1] == '%'
}

/// Length of the first token of a non-empty `s`.
pub open spec fn token_len(s: Seq<char>) -> nat {
    if starts_csi(s) {
        2 + csi_len(s.skip(2))
    } else if starts_zsh(s) {
        2 + zsh_len(s.skip(2))
    } else if starts_pct_pair(s) {
        2
    } else {
        1
    }
}

/// Visible width of the first token of a non-empty `s`.
pub open spec fn token_cols(s: Seq<char>) -> nat {
    if starts_csi(s) || starts_zsh(s) {
        0
    } else if s[0] == '%' {
        1
    } else {
        char_cols(s[0])
    }
}

pub proof fn lemma_token_len_bound(s: Seq<char>)
    requires
        s.len() > 0,
    ensures
        0 < token_len(s) <= s.len(),
{
    lemma_csi_len_bound(s.skip(2));
    lemma_zsh_len_bound(s.skip(2));
}

/// Display width of `s`: escape sequences (ANSI CSI and zsh `%{..%}`) are
/// invisible, `%%` shows as one column, and every other character counts its
/// Unicode width.
pub open spec fn visible_width(s: Seq<char>) -> nat
    decreases s.len(),
{
    if s.len() == 0 {
        0
    } else {
        proof {
            lemma_token_len_bound(s);
        }
        token_cols(s) + visible_width(s.skip(token_len(s) as int))
    }
}

/// `n` as a `usize` quantity, saturating at `usize::MAX`.
pub open spec fn clamp(n: nat) -> nat {
    if n <= usize::MAX {
        n
    } else {
        usize::MAX as nat
    }
}

/// Whether `c` terminates an ANSI CSI sequence.
pub fn is_csi_final(c: char) -> (r: bool)
    ensures
        r == csi_final(c),
{
    let v = c as u32;
    v >= 0x40 && v <= 0x7e
}

proof fn lemma_csi_step(t: Seq<char>)
    requires
        t.len() > 0,
        !csi_final(t[0]),
    ensures
        csi_len(t) == 1 + csi_len(t.skip(1)),
        csi_closes(t) == csi_closes(t.skip(1)),
{
}

/// Index just past the CSI body starting at `start`.
fn csi_end(cs: &Vec<char>, start: usize) -> (j: usize)
    requires
        start <= cs.len(),
    ensures
        j == start + csi_len(cs@.skip(start as int)),
        j <= cs.len(),
{
    let mut j = start;
    proof {
        lemma_csi_len_bound(cs@.skip(start as int));
    }
    while j < cs.len()
        invariant
            start <= j <= cs.len(),
            csi_len(cs@.skip(start as int)) == (j - start) + csi_len(cs@.skip(j as int)),
        decreases cs.len() - j,
    {
        let c = cs[j];
        if is_csi_final(c) {
            assert(csi_len(cs@.skip(j as int)) == 1);
            return j + 1;
        }
        proof {
            lemma_csi_step(cs@.skip(j as int));
            assert(cs@.skip(j as int).skip(1) == cs@.skip(j + 1));
        }
        j = j + 1;
    }
    j
}

/// Index just past the zsh escape body starting at `start`.
fn zsh_end(cs: &Vec<char>, start: usize) -> (j: usize)
    requires
        start <= cs.len(),
    ensures
        j == start + zsh_len(cs@.skip(start as int)),
        j <= cs.len(),
{
    let mut j = start;
    proof {
        lemma_zsh_len_bound(cs@.skip(start as int));
    }
    while j < cs.len()
        invariant
            start <= j <= cs.len(),
            zsh_len(cs@.skip(start as int)) == (j - start) + zsh_len(cs@.skip(j as int)),
        decreases cs.len() - j,
    {
        let c = cs[j];
        if c == '%' && j + 1 < cs.len() && cs[j + 1] == '}' {
            assert(zsh_len(cs@.skip(j as int)) == 2);
            return j + 2;
        }
        proof {
            assert(cs@.skip(j as int).skip(1) == cs@.skip(j + 1));
        }
        j = j + 1;
    }
    j
}

/// End, visible width, and escape-ness of the first token at position `i`.
fn next_token(cs: &Vec<char>, i: usize) -> (r: (usize, usize, bool))
    requires
        i < cs.len(),
    ensures
        r.0 == i + token_len(cs@.skip(i as int)),
        r.1 == token_cols(cs@.skip(i as int)),
        r.1 <= 3,
        r.2 == (starts_csi(cs@.skip(i as int)) || starts_zsh(cs@.skip(i as int))),
{
    let ghost s = cs@.skip(i as int);
    let ch = cs[i];
    if ch == '\x1b' && i + 1 < cs.len() && cs[i + 1] == '[' {
        let j = csi_end(cs, i + 2);
        assert(s.skip(2) == cs@.skip(i + 2));
        (j, 0, true)
    } else if ch == '%' && i + 1 < cs.len() && cs[i + 1] == '{' {
        let j = zsh_end(cs, i + 2);
        assert(s.skip(2) == cs@.skip(i + 2));
        (j, 0, true)
    } else if ch == '%' && i + 1 < cs.len() && cs[i + 1] == '%' {
        (i + 2, 1, false)
    } else if ch == '%' {
        (i + 1, 1, false)
    } else {
        match unicode_char_width(ch) {
            Some(w) => (i + 1, w, false),
            None => (i + 1, 0, false),
        }
    }
}

/// Display width of a character sequence, saturating at `usize::MAX`.
pub fn chars_display_width(cs: &Vec<char>) -> (w: usize)
    ensures
        w as nat == clamp(visible_width(cs@)),
{
    let mut i: usize = 0;
    let mut width: usize = 0;
    let ghost mut acc: nat = 0;
    assert(cs@.skip(0) == cs@);
    while i < cs.len()
        invariant
            i <= cs.len(),
            acc + visible_width(cs@.skip(i as int)) == visible_width(cs@),
            width as nat == clamp(acc),
        decreases cs.len() - i,
    {
        let (j, w, _) = next_token(cs, i);
        proof {
            lemma_token_len_bound(cs@.skip(i as int));
            assert(cs@.skip(i as int).skip(token_len(cs@.skip(i as int)) as int) == cs@.skip(
                j as int,
            ));
            acc = acc + (w as nat);
        }
        width = width.saturating_add(w);
        i = j;
    }
    proof {
        assert(cs@.skip(i as int).len() == 0);
    }
    width
}

/// Calculate the display width of a string, excluding ANSI escape sequences
/// and zsh `%{..%}` prompt escapes.
///
/// CJK characters are counted as 2 columns.
pub fn display_width(s: &str) -> (w: usize)
    ensures
        w as nat == clamp(visible_width(s@)),
{
    let cs = chars_of(s);
    chars_display_width(&cs)
}


/// The truncation scan: walks the tokens of `s` with `w` columns already used
/// and room for `m`, keeping escapes and every visible token that still fits.
/// Returns the kept characters, whether an escape was kept, and whether the
/// scan stopped at a token that did not fit.
pub open spec fn trunc_scan(s: Seq<char>, w: nat, m: nat) -> (Seq<char>, bool, bool)
    decreases s.len(),
{
    if s.len() == 0 {
        (Seq::empty(), false, false)
    } else {
        proof {
            lemma_token_len_bound(s);
        }
        let k = token_len(s);
        if starts_csi(s) || starts_zsh(s) {
            let r = trunc_scan(s.skip(k as int), w, m);
            (s.take(k as int) + r.0, true, r.2)
        } else if w + token_cols(s) > m {
            (Seq::empty(), false, true)
        } else {
            let r = trunc_scan(s.skip(k as int), w + token_cols(s), m);
            (s.take(k as int) + r.0, r.1, r.2)
        }
    }
}

/// `%{ ESC [ 0 m %}`, an SGR reset wrapped in a zsh escape.
pub open spec fn wrapped_reset() -> Seq<char> {
    seq!['%', '{', '\x1b', '[', '0', 'm', '%', '}']
}

/// The horizontal ellipsis appended to truncated text.
pub open spec fn ellipsis() -> char {
    '\u{2026}'
}

/// What `truncate(s, max)` returns: `s` itself when its (saturated) display
/// width fits, the empty string for zero columns, and otherwise the longest
/// prefix of visible tokens fitting in `max - 1` columns (with every escape met
/// on the way kept), an ellipsis, and a wrapped SGR reset if an escape was kept.
pub open spec fn truncate_spec(s: Seq<char>, max: nat) -> Seq<char> {
    if clamp(visible_width(s)) <= max {
        s
    } else if max == 0 {
        Seq::empty()
    } else {
        let r = trunc_scan(s, 0, (max - 1) as nat);
        r.0 + seq![ellipsis()] + (if r.1 {
            wrapped_reset()
        } else {
            Seq::empty()
        })
    }
}

/// Appends `cs[from..to]` to `out`.
fn push_range(out: &mut Vec<char>, cs: &Vec<char>, from: usize, to: usize)
    requires
        from <= to <= cs.len(),
    ensures
        final(out)@ == old(out)@ + cs@.subrange(from as int, to as int),
{
    let mut t = from;
    while t < to
        invariant
            from <= t <= to <= cs.len(),
            out@ == old(out)@ + cs@.subrange(from as int, t as int),
        decreases to - t,
    {
        out.push(cs[t]);
        t = t + 1;
        assert(cs@.subrange(from as int, t as int) == cs@.subrange(from as int, t - 1).push(
            cs@[t - 1],
        ));
    }
}

/// Truncate a string to fit within `max_width` display columns.
///
/// If truncation occurs, an ellipsis (`…`) is appended. ANSI escape sequences
/// and zsh `%{..%}` escapes encountered before the cut point are preserved.
/// An ANSI reset is appended when the truncated text contains escape sequences.
///
/// Returns the input unchanged when it already fits.
pub fn truncate(s: &str, max_width: usize) -> (r: String)
    ensures
        r@ == truncate_spec(s@, max_width as nat),
{
    let cs = chars_of(s);
    if chars_display_width(&cs) <= max_width {
        return String::from_str(s);
    }
    if max_width == 0 {
        return String::new();
    }
    let m = max_width - 1;
    let ghost mm = m as nat;
    let mut result: Vec<char> = Vec::new();
    let mut width: usize = 0;
    let mut has_escapes = false;
    let mut i: usize = 0;
    assert(cs@.skip(0) == cs@);
    assert(result@ + trunc_scan(cs@, 0, mm).0 == trunc_scan(cs@, 0, mm).0);
    while i < cs.len()
        invariant
            i <= cs.len(),
            width <= m,
            mm == m as nat,
            trunc_scan(cs@, 0, mm).0 == result@ + trunc_scan(cs@.skip(i as int), width as nat, mm).0,
            trunc_scan(cs@, 0, mm).1 == (has_escapes || trunc_scan(
                cs@.skip(i as int),
                width as nat,
                mm,
            ).1),
            trunc_scan(cs@, 0, mm).2 == trunc_scan(cs@.skip(i as int), width as nat, mm).2,
        ensures
            i <= cs.len(),
            trunc_scan(cs@, 0, mm).0 == result@ + trunc_scan(cs@.skip(i as int), width as nat, mm).0,
            trunc_scan(cs@, 0, mm).1 == (has_escapes || trunc_scan(
                cs@.skip(i as int),
                width as nat,
                mm,
            ).1),
            trunc_scan(cs@.skip(i as int), width as nat, mm).0 == Seq::<char>::empty(),
            !trunc_scan(cs@.skip(i as int), width as nat, mm).1,
        decreases cs.len() - i,
    {
        let ghost rest = cs@.skip(i as int);
        let (j, c, is_escape) = next_token(&cs, i);
        proof {
            lemma_token_len_bound(rest);
            assert(rest.skip(token_len(rest) as int) == cs@.skip(j as int));
            assert(rest.take(token_len(rest) as int) == cs@.subrange(i as int, j as int));
        }
        if is_escape {
            let ghost old_result = result@;
            push_range(&mut result, &cs, i, j);
            has_escapes = true;
            proof {
                let r = trunc_scan(cs@.skip(j as int), width as nat, mm);
                assert(old_result + (cs@.subrange(i as int, j as int) + r.0) == result@ + r.0);
            }
            i = j;
        } else {
            if c > m - width {
                break;
            }
            let ghost old_result = result@;
            push_range(&mut result, &cs, i, j);
            proof {
                let r = trunc_scan(cs@.skip(j as int), (width + c) as nat, mm);
                assert(old_result + (cs@.subrange(i as int, j as int) + r.0) == result@ + r.0);
            }
            width = width + c;
            i = j;
        }
    }
    proof {
        let r = trunc_scan(cs@.skip(i as int), width as nat, mm);
        assert(r.0 == Seq::<char>::empty());
        assert(result@ + r.0 == result@);
    }
    result.push('\u{2026}');
    if has_escapes {
        result.push('%');
        result.push('{');
        result.push('\x1b');
        result.push('[');
        result.push('0');
        result.push('m');
        result.push('%');
        result.push('}');
    }
    proof {
        let r = trunc_scan(cs@, 0, mm);
        assert(result@ =~= r.0 + seq![ellipsis()] + (if r.1 {
            wrapped_reset()
        } else {
            Seq::empty()
        }));
    }
    string_from_chars(&result)
}


/// Whether every escape sequence in `s` is terminated (no CSI or zsh escape
/// runs to the end of the string unclosed).
pub open spec fn escapes_closed(s: Seq<char>) -> bool
    decreases s.len(),
{
    if s.len() == 0 {
        true
    } else {
        proof {
            lemma_token_len_bound(s);
        }
        &&& (starts_csi(s) ==> csi_closes(s.skip(2)))
        &&& (starts_zsh(s) ==> zsh_closes(s.skip(2)))
        &&& escapes_closed(s.skip(token_len(s) as int))
    }
}

proof fn lemma_csi_prefix(t: Seq<char>, y: Seq<char>)
    requires
        csi_closes(t),
    ensures
        csi_len(t.take(csi_len(t) as int) + y) == csi_len(t),
        csi_closes(t.take(csi_len(t) as int) + y),
    decreases t.len(),
{
    let p = t.take(csi_len(t) as int) + y;
    lemma_csi_len_bound(t);
    if csi_final(t[0]) {
        assert(p[0] == t[0]);
    } else {
        let t1 = t.skip(1);
        lemma_csi_prefix(t1, y);
        lemma_csi_len_bound(t1);
        assert(p[0] == t[0]);
        assert(p.skip(1) =~= t1.take(csi_len(t1) as int) + y);
    }
}

proof fn lemma_zsh_closes_len(t: Seq<char>)
    requires
        zsh_closes(t),
    ensures
        zsh_len(t) >= 2,
    decreases t.len(),
{
    if !(t[0] == '%' && t.len() > 1 && t[1] == '}') {
        lemma_zsh_closes_len(t.skip(1));
    }
}

proof fn lemma_zsh_prefix(t: Seq<char>, y: Seq<char>)
    requires
        zsh_closes(t),
    ensures
        zsh_len(t.take(zsh_len(t) as int) + y) == zsh_len(t),
        zsh_closes(t.take(zsh_len(t) as int) + y),
    decreases t.len(),
{
    let p = t.take(zsh_len(t) as int) + y;
    lemma_zsh_len_bound(t);
    if t[0] == '%' && t.len() > 1 && t[1] == '}' {
        assert(p[0] == t[0] && p[1] == t[1]);
    } else {
        let t1 = t.skip(1);
        lemma_zsh_prefix(t1, y);
        lemma_zsh_len_bound(t1);
        lemma_zsh_closes_len(t1);
        assert(p[0] == t[0]);
        assert(p[1] == t[1]);
        assert(p.skip(1) =~= t1.take(zsh_len(t1) as int) + y);
    }
}

/// The first token of `s` is unaffected by what follows it.
pub open spec fn token_stable(s: Seq<char>, x: Seq<char>) -> bool {
    &&& s.len() > 0
    &&& (starts_csi(s) ==> csi_closes(s.skip(2)))
    &&& (starts_zsh(s) ==> zsh_closes(s.skip(2)))
    &&& ((s[0] == '%' && !starts_zsh(s) && !starts_pct_pair(s)) ==> (x.len() > 0 ==> x[0] != '{'
        && x[0] != '%'))
    &&& ((s[0] == '\x1b' && !starts_csi(s)) ==> (x.len() > 0 ==> x[0] != '['))
}

pub proof fn lemma_token_prefix(s: Seq<char>, x: Seq<char>)
    requires
        token_stable(s, x),
    ensures
        token_len(s.take(token_len(s) as int) + x) == token_len(s),
        token_cols(s.take(token_len(s) as int) + x) == token_cols(s),
        (s.take(token_len(s) as int) + x).skip(token_len(s) as int) == x,
        starts_csi(s.take(token_len(s) as int) + x) == starts_csi(s),
        starts_zsh(s.take(token_len(s) as int) + x) == starts_zsh(s),
        (starts_csi(s) ==> csi_closes((s.take(token_len(s) as int) + x).skip(2))),
        (starts_zsh(s) ==> zsh_closes((s.take(token_len(s) as int) + x).skip(2))),
{
    lemma_token_len_bound(s);
    let k = token_len(s);
    let u = s.take(k as int) + x;
    assert(u.skip(k as int) =~= x);
    assert(u[0] == s[0]);
    if starts_csi(s) {
        let t = s.skip(2);
        lemma_csi_prefix(t, x);
        lemma_csi_len_bound(t);
        assert(u[1] == s[1]);
        assert(u.skip(2) =~= t.take(csi_len(t) as int) + x);
    } else if starts_zsh(s) {
        let t = s.skip(2);
        lemma_zsh_prefix(t, x);
        lemma_zsh_len_bound(t);
        assert(u[1] == s[1]);
        assert(u.skip(2) =~= t.take(zsh_len(t) as int) + x);
    } else if starts_pct_pair(s) {
        assert(u[1] == s[1]);
    } else {
        assert(k == 1);
        if x.len() > 0 {
            assert(u[1] == x[0]);
        } else {
            assert(u.len() == 1);
        }
    }
}

/// A scan that never stops for lack of room kept every visible column.
pub proof fn lemma_scan_no_stop(s: Seq<char>, w: nat, m: nat)
    requires
        w <= m,
        !trunc_scan(s, w, m).2,
    ensures
        w + visible_width(s) <= m,
    decreases s.len(),
{
    if s.len() > 0 {
        lemma_token_len_bound(s);
        let k = token_len(s);
        if starts_csi(s) || starts_zsh(s) {
            lemma_scan_no_stop(s.skip(k as int), w, m);
        } else {
            lemma_scan_no_stop(s.skip(k as int), w + token_cols(s), m);
        }
    }
}

/// What a stopped scan keeps occupies at most the room it had, and closes every escape.
pub proof fn lemma_scan_kept(s: Seq<char>, w: nat, m: nat, tail: Seq<char>)
    requires
        w <= m,
        trunc_scan(s, w, m).2,
        tail.len() > 0,
        tail[0] == ellipsis(),
    ensures
        visible_width(trunc_scan(s, w, m).0 + tail) <= (m - w) + visible_width(tail),
        escapes_closed(trunc_scan(s, w, m).0 + tail) == escapes_closed(tail),
        trunc_scan(s, w, m).0.len() > 0 ==> trunc_scan(s, w, m).0[0] == s[0],
    decreases s.len(),
{
    lemma_token_len_bound(s);
    let k = token_len(s);
    let rest = s.skip(k as int);
    if starts_csi(s) || starts_zsh(s) {
        let r = trunc_scan(rest, w, m);
        if rest.len() == 0 {
            assert(!r.2);
        }
        lemma_csi_len_bound(s.skip(2));
        lemma_zsh_len_bound(s.skip(2));
        lemma_scan_kept(rest, w, m, tail);
        let x = r.0 + tail;
        assert(token_stable(s, x));
        lemma_token_prefix(s, x);
        let u = s.take(k as int) + x;
        assert(trunc_scan(s, w, m).0 + tail =~= u);
        assert(u.len() > 0);
    } else if w + token_cols(s) > m {
    } else {
        let c = token_cols(s);
        let r = trunc_scan(rest, w + c, m);
        if rest.len() == 0 {
            assert(!r.2);
        }
        lemma_scan_kept(rest, w + c, m, tail);
        let x = r.0 + tail;
        if r.0.len() > 0 {
            assert(x[0] == rest[0]);
            assert(rest[0] == s[k as int]);
        } else {
            assert(x[0] == ellipsis());
        }
        assert(token_stable(s, x));
        lemma_token_prefix(s, x);
        let u = s.take(k as int) + x;
        assert(trunc_scan(s, w, m).0 + tail =~= u);
        assert(u.len() > 0);
    }
}

pub proof fn lemma_truncation_tail(esc: bool)
    ensures
        visible_width(seq![ellipsis()] + (if esc {
            wrapped_reset()
        } else {
            Seq::empty()
        })) == 1,
        escapes_closed(seq![ellipsis()] + (if esc {
            wrapped_reset()
        } else {
            Seq::empty()
        })),
{
    let e: Seq<char> = Seq::empty();
    let r = wrapped_reset();
    let body = r.skip(2);
    assert(body.skip(1).skip(1).skip(1).skip(1).skip(2) =~= e);
    assert(zsh_len(body.skip(1).skip(1).skip(1).skip(1)) == 2);
    assert(zsh_len(body.skip(1).skip(1).skip(1)) == 3);
    assert(zsh_len(body.skip(1).skip(1)) == 4);
    assert(zsh_len(body.skip(1)) == 5);
    assert(zsh_len(body) == 6);
    assert(zsh_closes(body.skip(1).skip(1).skip(1).skip(1)));
    assert(zsh_closes(body.skip(1).skip(1).skip(1)));
    assert(zsh_closes(body.skip(1).skip(1)));
    assert(zsh_closes(body.skip(1)));
    assert(zsh_closes(body));
    assert(starts_zsh(r));
    assert(token_len(r) == 8);
    assert(token_cols(r) == 0);
    assert(r.skip(8) =~= e);
    assert(visible_width(r.skip(8)) == 0);
    assert(escapes_closed(r.skip(8)));
    assert(r.skip(8) =~= e);
    assert(visible_width(r) == 0);
    assert(escapes_closed(r));
    let t = seq![ellipsis()] + (if esc {
        r
    } else {
        e
    });
    assert(t.skip(1) =~= (if esc {
        r
    } else {
        e
    }));
    assert(char_cols(ellipsis()) == 1);
}

/// Truncation law: for any width below `usize::MAX`, the truncated string fits.
pub proof fn lemma_truncate_fits(s: Seq<char>, max: nat)
    requires
        max < usize::MAX,
    ensures
        visible_width(truncate_spec(s, max)) <= max,
{
    if clamp(visible_width(s)) <= max {
    } else if max == 0 {
    } else {
        let m = (max - 1) as nat;
        let r = trunc_scan(s, 0, m);
        if !r.2 {
            lemma_scan_no_stop(s, 0, m);
        }
        let tail = seq![ellipsis()] + (if r.1 {
            wrapped_reset()
        } else {
            Seq::empty()
        });
        lemma_truncation_tail(r.1);
        lemma_scan_kept(s, 0, m, tail);
        assert(truncate_spec(s, max) =~= r.0 + tail);
    }
}

/// Whether `k` falls between tokens of `s`: the first `k` characters are
/// whole tokens, so no escape sequence or `%%` pair is split there.
pub open spec fn token_boundary(s: Seq<char>, k: int) -> bool
    decreases s.len(),
{
    if k == 0 {
        true
    } else if s.len() == 0 || k < 0 {
        false
    } else {
        proof {
            lemma_token_len_bound(s);
        }
        let t = token_len(s);
        t <= k && token_boundary(s.skip(t as int), k - t)
    }
}

/// Whether one of the tokens of `s` that start before `k` is an escape
/// sequence (ANSI CSI or zsh `%{..%}`).
pub open spec fn escape_before(s: Seq<char>, k: int) -> bool
    decreases s.len(),
{
    if k <= 0 || s.len() == 0 {
        false
    } else {
        proof {
            lemma_token_len_bound(s);
        }
        starts_csi(s) || starts_zsh(s) || escape_before(s.skip(token_len(s) as int), k - token_len(s))
    }
}

proof fn lemma_scan_shape(s: Seq<char>, w: nat, m: nat) -> (k: int)
    ensures
        0 <= k <= s.len(),
        token_boundary(s, k),
        trunc_scan(s, w, m).0 == s.take(k),
        trunc_scan(s, w, m).1 == escape_before(s, k),
    decreases s.len(),
{
    if s.len() == 0 {
        assert(s.take(0) =~= Seq::<char>::empty());
        0
    } else {
        lemma_token_len_bound(s);
        let t = token_len(s);
        let rest = s.skip(t as int);
        if starts_csi(s) || starts_zsh(s) {
            let k2 = lemma_scan_shape(rest, w, m);
            assert(s.take(t as int) + rest.take(k2) =~= s.take(t + k2));
            assert(rest.take(k2) == trunc_scan(rest, w, m).0);
            t + k2
        } else if w + token_cols(s) > m {
            assert(s.take(0) =~= Seq::<char>::empty());
            0
        } else {
            let k2 = lemma_scan_shape(rest, w + token_cols(s), m);
            assert(s.take(t as int) + rest.take(k2) =~= s.take(t + k2));
            t + k2
        }
    }
}

/// Truncation law: a string too wide for `max > 0` columns becomes a prefix
/// of it made of whole tokens (no escape sequence or `%%` pair is split),
/// then an ellipsis, then a wrapped SGR reset exactly when the prefix holds
/// an escape sequence.
pub proof fn lemma_truncate_shape(s: Seq<char>, max: nat)
    requires
        clamp(visible_width(s)) > max,
        max > 0,
    ensures
        exists|k: int|
            0 <= k <= s.len() && token_boundary(s, k) && truncate_spec(s, max) == s.take(k) + seq![ellipsis()] + (
            if escape_before(s, k) {
                wrapped_reset()
            } else {
                Seq::<char>::empty()
            }),
        max < usize::MAX ==> truncate_spec(s, max) != s,
{
    if max < usize::MAX {
        lemma_truncate_fits(s, max);
    }
    let k = lemma_scan_shape(s, 0, (max - 1) as nat);
    assert(truncate_spec(s, max) == s.take(k) + seq![ellipsis()] + (if escape_before(s, k) {
        wrapped_reset()
    } else {
        Seq::<char>::empty()
    }));
}

/// Truncation never leaves an escape sequence open that the input closed.
pub proof fn lemma_truncate_closed(s: Seq<char>, max: nat)
    requires
        escapes_closed(s),
    ensures
        escapes_closed(truncate_spec(s, max)),
{
    if clamp(visible_width(s)) <= max {
    } else if max == 0 {
    } else {
        let m = (max - 1) as nat;
        let r = trunc_scan(s, 0, m);
        let tail = seq![ellipsis()] + (if r.1 {
            wrapped_reset()
        } else {
            Seq::empty()
        });
        lemma_truncation_tail(r.1);
        if r.2 {
            lemma_scan_kept(s, 0, m, tail);
            assert(truncate_spec(s, max) =~= r.0 + tail);
        } else {
            lemma_scan_no_stop(s, 0, m);
        }
    }
}


/// Text without `%` or ESC characters: every character is its own visible token.
pub open spec fn plain_text(t: Seq<char>) -> bool {
    forall|i: int| 0 <= i < t.len() ==> t[i] != '%' && t[i] != '\x1b'
}

/// Plain text neither opens escapes nor merges with what follows it.
pub proof fn lemma_plain_prefix(t: Seq<char>, z: Seq<char>)
    requires
        plain_text(t),
    ensures
        visible_width(t + z) == visible_width(t) + visible_width(z),
        escapes_closed(t + z) == escapes_closed(z),
        escapes_closed(t),
    decreases t.len(),
{
    if t.len() > 0 {
        let u = t + z;
        let t1 = t.skip(1);
        assert(plain_text(t1)) by {
            assert forall|i: int| 0 <= i < t1.len() implies t1[i] != '%' && t1[i] != '\x1b' by {
                assert(t1[i] == t[i + 1]);
            }
        }
        assert(u[0] == t[0]);
        assert(u.skip(1) =~= t1 + z);
        assert(t[0] != '%' && t[0] != '\x1b');
        lemma_plain_prefix(t1, z);
    } else {
        assert(t + z =~= z);
    }
}

/// A zsh escape body with no `%` before its closing `%}` ends right there.
pub proof fn lemma_zsh_body(x: Seq<char>, y: Seq<char>)
    requires
        forall|i: int| 0 <= i < x.len() ==> x[i] != '%',
    ensures
        zsh_len(x + seq!['%', '}'] + y) == x.len() + 2,
        zsh_closes(x + seq!['%', '}'] + y),
    decreases x.len(),
{
    let u = x + seq!['%', '}'] + y;
    if x.len() == 0 {
        assert(u[0] == '%' && u[1] == '}');
    } else {
        let x1 = x.skip(1);
        assert(u[0] == x[0]);
        assert(u.skip(1) =~= x1 + seq!['%', '}'] + y);
        lemma_zsh_body(x1, y);
    }
}

/// The wrapped reset sequence is invisible and closed.
pub proof fn lemma_wrapped_reset()
    ensures
        visible_width(wrapped_reset()) == 0,
        escapes_closed(wrapped_reset()),
{
    lemma_truncation_tail(true);
    let t = seq![ellipsis()] + wrapped_reset();
    assert(t.skip(1) =~= wrapped_reset());
    assert(!starts_csi(t) && !starts_zsh(t) && t[0] != '%');
}

} // verus!
