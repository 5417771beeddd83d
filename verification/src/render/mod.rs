//! Rendering pipeline for composing prompt lines from module outputs.
//!
//! The pipeline has three stages:
//! - **Style** ([`style`]): ANSI color codes wrapped in zsh `%{..%}` escapes
//! - **Layout** ([`layout`]): display width calculation and truncation
//! - **Composition**: arranging segments into left-aligned prompt lines
pub mod layout;
pub mod segment;
pub mod style;

use vstd::prelude::*;
use vstd::slice::slice_subrange;

use self::layout::{
    char_cols, clamp, display_width, escapes_closed, lemma_token_len_bound, lemma_token_prefix,
    lemma_truncate_closed, lemma_truncate_fits, starts_csi, token_cols, token_len, token_stable,
    truncate, truncate_spec, visible_width,
};
use self::segment::Segment;
use self::style::ColorMap;
use crate::text::{push_str_chars, string_from_chars};

verus! {

/// Composed prompt output ready for the wire protocol.
#[derive(Debug, Clone, PartialEq, Eq)]
pub struct PromptLines {
    /// Info line (line 1 of the prompt).
    pub left1: String,
    /// Input line (line 2 of the prompt).
    pub left2: String,
}

/// The character sequences of a list of strings.
pub open spec fn views(parts: Seq<String>) -> Seq<Seq<char>> {
    Seq::new(parts.len(), |i: int| parts[i]@)
}

/// Non-empty parts joined left-to-right with single spaces.
pub open spec fn join_spec(parts: Seq<Seq<char>>) -> Seq<char>
    decreases parts.len(),
{
    if parts.len() == 0 {
        Seq::empty()
    } else {
        let j = join_spec(parts.drop_last());
        let p = parts.last();
        if p.len() == 0 {
            j
        } else if j.len() == 0 {
            p
        } else {
            j + seq![' '] + p
        }
    }
}

/// The rendered text of each segment.
pub open spec fn rendered_spec(segments: Seq<Segment>, color_map: ColorMap) -> Seq<Seq<char>> {
    Seq::new(segments.len(), |i: int| segments[i].render_spec(color_map))
}

/// Every segment can be painted under `color_map`.
pub open spec fn all_paintable(segments: Seq<Segment>, color_map: ColorMap) -> bool {
    forall|i: int| 0 <= i < segments.len() ==> #[trigger] segments[i].paintable_with(color_map)
}

/// The first rendered part truncated so that it and the rest (joined) fit in
/// `cols`; `None` when the rest alone leaves no room.
pub open spec fn try_truncate_spec(r: Seq<Seq<char>>, cols: nat) -> Option<Seq<char>> {
    if r.len() == 0 {
        None
    } else {
        let rest = join_spec(r.skip(1));
        let sep: nat = if rest.len() > 0 {
            1
        } else {
            0
        };
        let overhead = clamp(visible_width(rest)) + sep;
        if overhead >= cols {
            None
        } else {
            let t = truncate_spec(r[0], (cols - overhead) as nat);
            Some(
                if rest.len() > 0 {
                    t + seq![' '] + rest
                } else {
                    t
                },
            )
        }
    }
}

/// Dropping parts from the right, `d` at a time upward, until the joined rest
/// fits or its first part can be truncated to fit; truncating the whole line
/// as a last resort.
pub open spec fn drop_phase(r: Seq<Seq<char>>, cols: nat, d: nat) -> Seq<char>
    decreases r.len() - d,
{
    if d >= r.len() {
        truncate_spec(join_spec(r), cols)
    } else {
        let rem = r.take(r.len() - d);
        let rj = join_spec(rem);
        if clamp(visible_width(rj)) <= cols {
            rj
        } else {
            match try_truncate_spec(rem, cols) {
                Some(l) => l,
                None => drop_phase(r, cols, d + 1),
            }
        }
    }
}

/// What composing rendered parts into a line of `cols` columns yields.
pub open spec fn compose_line_spec(r: Seq<Seq<char>>, cols: nat) -> Seq<char> {
    if cols == 0 || r.len() == 0 {
        Seq::empty()
    } else {
        let joined = join_spec(r);
        if clamp(visible_width(joined)) <= cols {
            joined
        } else {
            match try_truncate_spec(r, cols) {
                Some(l) => l,
                None => drop_phase(r, cols, 1),
            }
        }
    }
}

/// Renders every segment.
pub fn render_segments(segments: &[Segment], color_map: ColorMap) -> (r: Vec<String>)
    requires
        all_paintable(segments@, color_map),
    ensures
        views(r@) == rendered_spec(segments@, color_map),
{
    let mut out: Vec<String> = Vec::new();
    let mut i: usize = 0;
    while i < segments.len()
        invariant
            i <= segments.len(),
            all_paintable(segments@, color_map),
            out.len() == i,
            views(out@) == rendered_spec(segments@, color_map).take(i as int),
        decreases segments.len() - i,
    {
        assert(segments@[i as int].paintable_with(color_map));
        let s = segments[i].render(color_map);
        let ghost old_out = out@;
        out.push(s);
        proof {
            assert(out@[i as int] == s);
            assert forall|j: int| 0 <= j < i implies out@[j] == old_out[j] by {}
            assert forall|j: int| 0 <= j < i implies views(out@)[j] == views(old_out)[j] by {}
        }
        i = i + 1;
        assert(views(out@) =~= rendered_spec(segments@, color_map).take(i as int));
    }
    assert(rendered_spec(segments@, color_map).take(i as int) =~= rendered_spec(
        segments@,
        color_map,
    ));
    out
}

/// Joins the non-empty parts with single spaces.
pub fn join_rendered(parts: &[String]) -> (r: String)
    ensures
        r@ == join_spec(views(parts@)),
{
    let mut out: Vec<char> = Vec::new();
    let mut i: usize = 0;
    while i < parts.len()
        invariant
            i <= parts.len(),
            out@ == join_spec(views(parts@).take(i as int)),
        decreases parts.len() - i,
    {
        let part = parts[i].as_str();
        let ghost prev = views(parts@).take(i as int);
        assert(views(parts@).take(i + 1).drop_last() =~= prev);
        assert(views(parts@).take(i + 1).last() == part@);
        if !part.is_empty() {
            if out.len() > 0 {
                out.push(' ');
            }
            push_str_chars(&mut out, part);
        }
        i = i + 1;
        assert(out@ =~= join_spec(views(parts@).take(i as int)));
    }
    assert(views(parts@).take(i as int) =~= views(parts@));
    string_from_chars(&out)
}

/// Truncates the first rendered part so that it and the rest fit in `cols`.
pub fn try_truncate_first_segment(rendered: &[String], cols: usize) -> (r: Option<String>)
    ensures
        r matches Some(l) ==> try_truncate_spec(views(rendered@), cols as nat) == Some(l@),
        r is None ==> try_truncate_spec(views(rendered@), cols as nat) is None,
{
    if rendered.len() == 0 {
        return None;
    }
    let rest_parts = slice_subrange(rendered, 1, rendered.len());
    assert(views(rest_parts@) =~= views(rendered@).skip(1));
    let rest_joined = join_rendered(rest_parts);
    let rest_w = display_width(rest_joined.as_str());
    let sep: usize = if rest_joined.as_str().is_empty() {
        0
    } else {
        1
    };
    if rest_w >= cols || cols - rest_w <= sep {
        return None;
    }
    let available = cols - rest_w - sep;
    let dir_truncated = truncate(rendered[0].as_str(), available);
    let mut out: Vec<char> = Vec::new();
    push_str_chars(&mut out, dir_truncated.as_str());
    if !rest_joined.as_str().is_empty() {
        out.push(' ');
        push_str_chars(&mut out, rest_joined.as_str());
    }
    proof {
        let rest = join_spec(views(rendered@).skip(1));
        assert(rest == rest_joined@);
        assert(views(rendered@)[0] == rendered@[0]@);
        let t = truncate_spec(views(rendered@)[0], available as nat);
        assert(out@ =~= (if rest.len() > 0 {
            t + seq![' '] + rest
        } else {
            t
        }));
    }
    Some(string_from_chars(&out))
}

/// Composes one prompt line from segments.
///
/// All segments are rendered and joined left-to-right with spaces. When the
/// total width exceeds `cols`, the first segment is truncated; if still too
/// wide, rightmost segments are dropped one at a time.
pub fn compose_line(segments: &[Segment], cols: usize, color_map: ColorMap) -> (r: String)
    requires
        all_paintable(segments@, color_map),
    ensures
        r@ == compose_line_spec(rendered_spec(segments@, color_map), cols as nat),
{
    if cols == 0 || segments.len() == 0 {
        return String::new();
    }
    let rendered = render_segments(segments, color_map);
    let ghost rs = views(rendered@);
    let joined = join_rendered(rendered.as_slice());
    if display_width(joined.as_str()) <= cols {
        return joined;
    }
    if let Some(line) = try_truncate_first_segment(rendered.as_slice(), cols) {
        return line;
    }
    let mut drop_count: usize = 1;
    while drop_count < rendered.len()
        invariant
            1 <= drop_count,
            rs == views(rendered@),
            rs == rendered_spec(segments@, color_map),
            rs.len() == rendered.len(),
            compose_line_spec(rs, cols as nat) == drop_phase(rs, cols as nat, drop_count as nat),
            joined@ == join_spec(rs),
        decreases rendered.len() - drop_count,
    {
        let remaining = slice_subrange(rendered.as_slice(), 0, rendered.len() - drop_count);
        assert(views(remaining@) =~= rs.take(rs.len() - drop_count));
        let rj = join_rendered(remaining);
        proof {
            let rem = rs.take(rs.len() - drop_count);
            assert(rj@ == join_spec(rem));
            assert(drop_phase(rs, cols as nat, drop_count as nat) == (if clamp(visible_width(join_spec(rem))) <= cols {
                join_spec(rem)
            } else {
                match try_truncate_spec(rem, cols as nat) {
                    Some(l) => l,
                    None => drop_phase(rs, cols as nat, drop_count as nat + 1),
                }
            }));
        }
        if display_width(rj.as_str()) <= cols {
            return rj;
        }
        if let Some(line) = try_truncate_first_segment(remaining, cols) {
            return line;
        }
        drop_count = drop_count + 1;
    }
    truncate(joined.as_str(), cols)
}

/// Compose [`Segment`]s into prompt lines with left-aligned layout.
pub fn compose_segments(line1: &[Segment], line2: &[Segment], cols: usize, color_map: ColorMap) -> (r:
    PromptLines)
    requires
        all_paintable(line1@, color_map),
        all_paintable(line2@, color_map),
    ensures
        r.left1@ == compose_line_spec(rendered_spec(line1@, color_map), cols as nat),
        r.left2@ == compose_line_spec(rendered_spec(line2@, color_map), cols as nat),
{
    PromptLines { left1: compose_line(line1, cols, color_map), left2: compose_line(line2, cols, color_map) }
}


/// A space after text whose escapes are all closed starts a fresh token, so
/// widths add up across it.
pub proof fn lemma_space_join(a: Seq<char>, b: Seq<char>)
    requires
        escapes_closed(a),
    ensures
        visible_width(a + seq![' '] + b) == visible_width(a) + 1 + visible_width(b),
        escapes_closed(a + seq![' '] + b) == escapes_closed(b),
    decreases a.len(),
{
    let u = a + seq![' '] + b;
    if a.len() == 0 {
        assert(u =~= seq![' '] + b);
        assert(u.skip(1) =~= b);
        assert(char_cols(' ') == 1);
        assert(!starts_csi(u));
    } else {
        lemma_token_len_bound(a);
        let k = token_len(a);
        let rest = a.skip(k as int);
        let x = rest + seq![' '] + b;
        if rest.len() > 0 {
            assert(x[0] == rest[0]);
            assert(rest[0] == a[k as int]);
        } else {
            assert(x[0] == ' ');
        }
        assert(token_stable(a, x));
        lemma_token_prefix(a, x);
        assert(u =~= a.take(k as int) + x);
        lemma_space_join(rest, b);
    }
}

/// Joining parts whose escapes are closed yields text whose escapes are closed.
pub proof fn lemma_join_closed(ps: Seq<Seq<char>>)
    requires
        forall|i: int| 0 <= i < ps.len() ==> escapes_closed(#[trigger] ps[i]),
    ensures
        escapes_closed(join_spec(ps)),
    decreases ps.len(),
{
    if ps.len() > 0 {
        let init = ps.drop_last();
        assert forall|i: int| 0 <= i < init.len() implies escapes_closed(#[trigger] init[i]) by {
            assert(init[i] == ps[i]);
        }
        lemma_join_closed(init);
        let j = join_spec(init);
        let p = ps.last();
        assert(escapes_closed(p));
        if p.len() > 0 && j.len() > 0 {
            lemma_space_join(j, p);
        }
    }
}

proof fn lemma_try_truncate_fits(r: Seq<Seq<char>>, cols: nat)
    requires
        cols < usize::MAX,
        forall|i: int| 0 <= i < r.len() ==> escapes_closed(#[trigger] r[i]),
        try_truncate_spec(r, cols) is Some,
    ensures
        visible_width(try_truncate_spec(r, cols).unwrap()) <= cols,
{
    let rest_parts = r.skip(1);
    assert forall|i: int| 0 <= i < rest_parts.len() implies escapes_closed(
        #[trigger] rest_parts[i],
    ) by {
        assert(rest_parts[i] == r[i + 1]);
    }
    lemma_join_closed(rest_parts);
    let rest = join_spec(rest_parts);
    let sep: nat = if rest.len() > 0 {
        1
    } else {
        0
    };
    let overhead = clamp(visible_width(rest)) + sep;
    let avail = (cols - overhead) as nat;
    assert(escapes_closed(r[0]));
    lemma_truncate_fits(r[0], avail);
    lemma_truncate_closed(r[0], avail);
    let t = truncate_spec(r[0], avail);
    if rest.len() > 0 {
        lemma_space_join(t, rest);
    }
}

/// Layout law: when every rendered part closes its escapes, the composed line
/// never exceeds `cols` display columns.
pub proof fn lemma_compose_fits(r: Seq<Seq<char>>, cols: nat)
    requires
        cols < usize::MAX,
        forall|i: int| 0 <= i < r.len() ==> escapes_closed(#[trigger] r[i]),
    ensures
        visible_width(compose_line_spec(r, cols)) <= cols,
{
    if cols == 0 || r.len() == 0 {
    } else {
        let joined = join_spec(r);
        if clamp(visible_width(joined)) <= cols {
        } else if try_truncate_spec(r, cols) is Some {
            lemma_try_truncate_fits(r, cols);
        } else {
            lemma_drop_phase_fits(r, cols, 1);
        }
    }
}

proof fn lemma_drop_phase_fits(r: Seq<Seq<char>>, cols: nat, d: nat)
    requires
        cols < usize::MAX,
        forall|i: int| 0 <= i < r.len() ==> escapes_closed(#[trigger] r[i]),
    ensures
        visible_width(drop_phase(r, cols, d)) <= cols,
    decreases r.len() - d,
{
    if d >= r.len() {
        lemma_truncate_fits(join_spec(r), cols);
    } else {
        let rem = r.take(r.len() - d);
        assert forall|i: int| 0 <= i < rem.len() implies escapes_closed(#[trigger] rem[i]) by {
            assert(rem[i] == r[i]);
        }
        let rj = join_spec(rem);
        if clamp(visible_width(rj)) <= cols {
        } else if try_truncate_spec(rem, cols) is Some {
            lemma_try_truncate_fits(rem, cols);
        } else {
            lemma_drop_phase_fits(r, cols, d + 1);
        }
    }
}

/// The first `r.len() - d` parts: what is left after dropping `d` from the right.
pub open spec fn kept_parts(r: Seq<Seq<char>>, d: int) -> Seq<Seq<char>> {
    r.take(r.len() - d)
}

/// Whether the kept parts can be shown in `cols` columns: joined as they are,
/// or with their first part truncated.
pub open spec fn can_show(p: Seq<Seq<char>>, cols: nat) -> bool {
    clamp(visible_width(join_spec(p))) <= cols || try_truncate_spec(p, cols) is Some
}

/// How the kept parts are shown: joined when they fit, else with their first
/// part truncated.
pub open spec fn shown(p: Seq<Seq<char>>, cols: nat) -> Seq<char> {
    if clamp(visible_width(join_spec(p))) <= cols {
        join_spec(p)
    } else {
        try_truncate_spec(p, cols)->0
    }
}

proof fn lemma_drop_phase_first_fit(r: Seq<Seq<char>>, cols: nat, e: nat, d: nat)
    requires
        1 <= e <= d < r.len(),
        can_show(kept_parts(r, d as int), cols),
        forall|f: int| e <= f < d ==> !can_show(#[trigger] kept_parts(r, f), cols),
    ensures
        drop_phase(r, cols, e) == shown(kept_parts(r, d as int), cols),
    decreases d - e,
{
    if e < d {
        assert(!can_show(kept_parts(r, e as int), cols));
        lemma_drop_phase_first_fit(r, cols, e + 1, d);
    }
}

proof fn lemma_drop_phase_none_fit(r: Seq<Seq<char>>, cols: nat, e: nat)
    requires
        1 <= e,
        forall|f: int| e <= f < r.len() ==> !can_show(#[trigger] kept_parts(r, f), cols),
    ensures
        drop_phase(r, cols, e) == truncate_spec(join_spec(r), cols),
    decreases r.len() - e,
{
    if e < r.len() {
        assert(!can_show(kept_parts(r, e as int), cols));
        lemma_drop_phase_none_fit(r, cols, e + 1);
    }
}

/// Composition law: a line shows the longest run of leading parts that can be
/// shown, joined when it fits and otherwise with its first part truncated;
/// parts are dropped from the right only while no truncation of the first
/// part lets the remaining ones fit. When not even the first part alone can
/// be shown, the whole joined line is truncated.
pub proof fn lemma_compose_keeps_longest_showable(r: Seq<Seq<char>>, cols: nat)
    requires
        cols > 0,
        r.len() > 0,
    ensures
        forall|d: int|
            0 <= d < r.len() && can_show(#[trigger] kept_parts(r, d), cols) && (forall|f: int|
                0 <= f < d ==> !can_show(#[trigger] kept_parts(r, f), cols))
                ==> compose_line_spec(r, cols) == shown(kept_parts(r, d), cols),
        (forall|f: int| 0 <= f < r.len() ==> !can_show(#[trigger] kept_parts(r, f), cols))
            ==> compose_line_spec(r, cols) == truncate_spec(join_spec(r), cols),
{
    assert(kept_parts(r, 0) =~= r);
    assert forall|d: int|
        0 <= d < r.len() && can_show(#[trigger] kept_parts(r, d), cols) && (forall|f: int|
            0 <= f < d ==> !can_show(#[trigger] kept_parts(r, f), cols))
        implies compose_line_spec(r, cols) == shown(kept_parts(r, d), cols) by {
        if d > 0 {
            assert(!can_show(kept_parts(r, 0), cols));
            lemma_drop_phase_first_fit(r, cols, 1, d as nat);
        }
    }
    if forall|f: int| 0 <= f < r.len() ==> !can_show(#[trigger] kept_parts(r, f), cols) {
        assert(!can_show(kept_parts(r, 0), cols));
        lemma_drop_phase_none_fit(r, cols, 1);
    }
}

} // verus!
