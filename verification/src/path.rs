//! Unix path components, compared and stripped as `std::path::Path` does.
//!
//! A path is read as its components: an optional root `/`, an optional
//! leading `.`, then the non-empty parts between separators, where `.`
//! parts are dropped. Two paths are equal when their components are, and
//! stripping a prefix leaves the text of the remaining components, from the
//! first one's start to the last one's end.
use vstd::prelude::*;

use crate::text::{chars_of, lemma_scan, scan, slice_chars, string_from_chars};

verus! {

/// The kind of a path component.
#[derive(Debug, Clone, Copy, PartialEq, Eq, Structural)]
pub enum CompKind {
    /// The root directory `/`.
    Root,
    /// A leading `.`.
    Cur,
    /// A `..` part.
    Parent,
    /// Any other part.
    Normal,
}

/// A component with its position `[start, end)` in the path text.
#[derive(Debug, Clone, Copy, PartialEq, Eq, Structural)]
pub struct Span {
    pub kind: CompKind,
    pub start: usize,
    pub end: usize,
}

/// Stops at a separator.
pub open spec fn stop_slash() -> spec_fn(char) -> bool {
    |c: char| c == '/'
}

/// The components of the parts of `p` from index `i` on.
pub open spec fn parts_from(p: Seq<char>, i: int) -> Seq<(CompKind, int, int)>
    decreases p.len() - i,
{
    if i < 0 || i >= p.len() {
        Seq::empty()
    } else {
        let e = scan(p, i, stop_slash());
        if e < i || e > p.len() {
            Seq::empty()
        } else {
            let part = p.subrange(i, e);
            let rest = if e < p.len() { parts_from(p, e + 1) } else { Seq::empty() };
            if part.len() == 0 || part == seq!['.'] {
                rest
            } else if part == seq!['.', '.'] {
                seq![(CompKind::Parent, i, e)] + rest
            } else {
                seq![(CompKind::Normal, i, e)] + rest
            }
        }
    }
}

/// The components of `p` with their positions.
pub open spec fn components(p: Seq<char>) -> Seq<(CompKind, int, int)> {
    if p.len() > 0 && p[0] == '/' {
        seq![(CompKind::Root, 0int, 1int)] + parts_from(p, 1)
    } else if p.len() > 0 && p[0] == '.' && (p.len() == 1 || p[1] == '/') {
        seq![(CompKind::Cur, 0int, 1int)] + parts_from(p, 1)
    } else {
        parts_from(p, 0)
    }
}

/// A component as compared: its kind and, for a normal part, its text.
pub open spec fn comp_key(p: Seq<char>, c: (CompKind, int, int)) -> (CompKind, Seq<char>) {
    (c.0, if c.0 == CompKind::Normal { p.subrange(c.1, c.2) } else { Seq::empty() })
}

/// The compared form of each component of `p`.
pub open spec fn comp_keys(p: Seq<char>) -> Seq<(CompKind, Seq<char>)> {
    components(p).map_values(|c: (CompKind, int, int)| comp_key(p, c))
}

/// Whether two paths have the same components (`Path == Path`).
pub open spec fn path_eq(a: Seq<char>, b: Seq<char>) -> bool {
    comp_keys(a) == comp_keys(b)
}

/// The text of the components of `p` from the `k`-th on.
pub open spec fn remainder(p: Seq<char>, k: int) -> Seq<char> {
    let a = components(p);
    if k >= a.len() {
        Seq::empty()
    } else {
        p.subrange(if k <= 0 { 0 } else { a[k].1 }, a.last().2)
    }
}

/// `p` without the leading components `base` (`Path::strip_prefix`).
pub open spec fn strip_path_prefix_spec(p: Seq<char>, base: Seq<char>) -> Option<Seq<char>> {
    let kp = comp_keys(p);
    let kb = comp_keys(base);
    if kb.len() <= kp.len() && kp.take(kb.len() as int) == kb {
        Some(remainder(p, kb.len() as int))
    } else {
        None
    }
}

/// The final component of `p` when it is a normal part (`Path::file_name`).
pub open spec fn file_name_spec(p: Seq<char>) -> Option<Seq<char>> {
    let a = components(p);
    if a.len() > 0 && a.last().0 == CompKind::Normal {
        Some(p.subrange(a.last().1, a.last().2))
    } else {
        None
    }
}

/// The view of a list of spans.
pub open spec fn spans_view(v: Seq<Span>) -> Seq<(CompKind, int, int)> {
    v.map_values(|s: Span| (s.kind, s.start as int, s.end as int))
}

fn scan_slash(s: &[char], i: usize) -> (k: usize)
    requires
        i <= s.len(),
    ensures
        k == scan(s@, i as int, stop_slash()),
{
    let mut k = i;
    while k < s.len() && s[k] != '/'
        invariant
            i <= k <= s.len(),
            scan(s@, i as int, stop_slash()) == scan(s@, k as int, stop_slash()),
        decreases s.len() - k,
    {
        k = k + 1;
    }
    k
}

proof fn lemma_parts_bounds(p: Seq<char>, i: int)
    requires
        0 <= i,
    ensures
        forall|k: int|
            0 <= k < parts_from(p, i).len() ==> i <= (#[trigger] parts_from(p, i)[k]).1 < parts_from(
                p,
                i,
            )[k].2 <= p.len(),
    decreases p.len() - i,
{
    if i < p.len() {
        let e = scan(p, i, stop_slash());
        lemma_scan(p, i, stop_slash());
        if e < p.len() {
            lemma_parts_bounds(p, e + 1);
        }
        let rest = if e < p.len() { parts_from(p, e + 1) } else { Seq::<(CompKind, int, int)>::empty() };
        let part = p.subrange(i, e);
        assert forall|k: int| 0 <= k < parts_from(p, i).len() implies i <= (
        #[trigger] parts_from(p, i)[k]).1 < parts_from(p, i)[k].2 <= p.len() by {
            if part.len() == 0 || part == seq!['.'] {
                assert(parts_from(p, i) == rest);
            } else {
                if k > 0 {
                    assert(parts_from(p, i)[k] == rest[k - 1]);
                }
            }
        }
    }
}

/// The components of `p` with their positions.
pub fn path_components(p: &[char]) -> (r: Vec<Span>)
    ensures
        spans_view(r@) == components(p@),
{
    let mut r: Vec<Span> = Vec::new();
    let mut i: usize = 0;
    if p.len() > 0 && p[0] == '/' {
        r.push(Span { kind: CompKind::Root, start: 0, end: 1 });
        i = 1;
    } else if p.len() > 0 && p[0] == '.' && (p.len() == 1 || p[1] == '/') {
        r.push(Span { kind: CompKind::Cur, start: 0, end: 1 });
        i = 1;
    }
    let ghost head = spans_view(r@);
    assert(components(p@) == head + parts_from(p@, i as int));
    while i < p.len()
        invariant
            i <= p.len(),
            components(p@) == spans_view(r@) + parts_from(p@, i as int),
        decreases p.len() - i,
    {
        let e = scan_slash(p, i);
        proof {
            lemma_scan(p@, i as int, stop_slash());
        }
        let len = e - i;
        let is_dot = len == 1 && p[i] == '.';
        let is_dotdot = len == 2 && p[i] == '.' && p[i + 1] == '.';
        let ghost part = p@.subrange(i as int, e as int);
        let ghost rest = if e < p.len() {
            parts_from(p@, e + 1)
        } else {
            Seq::<(CompKind, int, int)>::empty()
        };
        proof {
            if len == 1 {
                assert(is_dot == (part == seq!['.'])) by {
                    if part == seq!['.'] {
                        assert(part[0] == p@[i as int]);
                    }
                    if is_dot {
                        assert(part =~= seq!['.']);
                    }
                }
            } else {
                assert(part != seq!['.']) by {
                    assert(part.len() != 1);
                }
            }
            if len == 2 {
                assert(is_dotdot == (part == seq!['.', '.'])) by {
                    if part == seq!['.', '.'] {
                        assert(part[0] == p@[i as int]);
                        assert(part[1] == p@[i + 1]);
                    }
                    if is_dotdot {
                        assert(part =~= seq!['.', '.']);
                    }
                }
            } else {
                assert(part != seq!['.', '.']) by {
                    assert(part.len() != 2);
                }
            }
        }
        let ghost before = r@;
        if len == 0 || is_dot {
        } else if is_dotdot {
            r.push(Span { kind: CompKind::Parent, start: i, end: e });
        } else {
            r.push(Span { kind: CompKind::Normal, start: i, end: e });
        }
        proof {
            assert(spans_view(r@) + rest =~= spans_view(before) + parts_from(p@, i as int));
        }
        if e < p.len() {
            i = e + 1;
        } else {
            i = p.len();
            assert(rest =~= parts_from(p@, i as int));
        }
    }
    proof {
        assert(spans_view(r@) + Seq::<(CompKind, int, int)>::empty() =~= spans_view(r@));
    }
    r
}

proof fn lemma_components_bounds(p: Seq<char>)
    ensures
        forall|k: int|
            0 <= k < components(p).len() ==> 0 <= (#[trigger] components(p)[k]).1 < components(
                p,
            )[k].2 <= p.len(),
{
    if p.len() > 0 && p[0] == '/' {
        lemma_parts_bounds(p, 1);
        assert forall|k: int| 0 <= k < components(p).len() implies 0 <= (
        #[trigger] components(p)[k]).1 < components(p)[k].2 <= p.len() by {
            if k > 0 {
                assert(components(p)[k] == parts_from(p, 1)[k - 1]);
            }
        }
    } else if p.len() > 0 && p[0] == '.' && (p.len() == 1 || p[1] == '/') {
        lemma_parts_bounds(p, 1);
        assert forall|k: int| 0 <= k < components(p).len() implies 0 <= (
        #[trigger] components(p)[k]).1 < components(p)[k].2 <= p.len() by {
            if k > 0 {
                assert(components(p)[k] == parts_from(p, 1)[k - 1]);
            }
        }
    } else {
        lemma_parts_bounds(p, 0);
    }
}

proof fn lemma_parts_ordered(p: Seq<char>, i: int)
    requires
        0 <= i,
    ensures
        forall|j: int, k: int|
            0 <= j <= k < parts_from(p, i).len() ==> (#[trigger] parts_from(p, i)[j]).1 <= (
            #[trigger] parts_from(p, i)[k]).1,
    decreases p.len() - i,
{
    if i < p.len() {
        let e = scan(p, i, stop_slash());
        lemma_scan(p, i, stop_slash());
        if e < p.len() {
            lemma_parts_ordered(p, e + 1);
            lemma_parts_bounds(p, e + 1);
        }
        let rest = if e < p.len() { parts_from(p, e + 1) } else { Seq::<(CompKind, int, int)>::empty() };
        let part = p.subrange(i, e);
        assert forall|j: int, k: int|
            0 <= j <= k < parts_from(p, i).len() implies (#[trigger] parts_from(p, i)[j]).1 <= (
            #[trigger] parts_from(p, i)[k]).1 by {
            if part.len() == 0 || part == seq!['.'] {
                assert(parts_from(p, i) == rest);
            } else {
                if j > 0 {
                    assert(parts_from(p, i)[j] == rest[j - 1]);
                }
                if k > 0 {
                    assert(parts_from(p, i)[k] == rest[k - 1]);
                }
            }
        }
    }
}

proof fn lemma_spans_ordered(p: Seq<char>, j: int, k: int)
    requires
        0 <= j <= k < components(p).len(),
    ensures
        components(p)[j].1 <= components(p)[k].1,
{
    if p.len() > 0 && (p[0] == '/' || (p[0] == '.' && (p.len() == 1 || p[1] == '/'))) {
        lemma_parts_ordered(p, 1);
        lemma_parts_bounds(p, 1);
        if j > 0 {
            assert(components(p)[j] == parts_from(p, 1)[j - 1]);
        }
        if k > 0 {
            assert(components(p)[k] == parts_from(p, 1)[k - 1]);
        }
    } else {
        lemma_parts_ordered(p, 0);
    }
}

/// Whether `a[a0..a1]` and `b[b0..b1]` hold the same characters.
fn ranges_eq(a: &[char], a0: usize, a1: usize, b: &[char], b0: usize, b1: usize) -> (r: bool)
    requires
        a0 <= a1 <= a.len(),
        b0 <= b1 <= b.len(),
    ensures
        r == (a@.subrange(a0 as int, a1 as int) == b@.subrange(b0 as int, b1 as int)),
{
    if a1 - a0 != b1 - b0 {
        assert(a@.subrange(a0 as int, a1 as int).len() != b@.subrange(b0 as int, b1 as int).len());
        return false;
    }
    let n = a1 - a0;
    let mut i: usize = 0;
    while i < n
        invariant
            i <= n,
            n == a1 - a0,
            n == b1 - b0,
            a0 <= a1 <= a.len(),
            b0 <= b1 <= b.len(),
            a@.subrange(a0 as int, a0 + i) == b@.subrange(b0 as int, b0 + i),
        decreases n - i,
    {
        if a[a0 + i] != b[b0 + i] {
            assert(a@.subrange(a0 as int, a1 as int)[i as int] != b@.subrange(
                b0 as int,
                b1 as int,
            )[i as int]);
            return false;
        }
        assert(a@.subrange(a0 as int, a0 + i + 1) =~= a@.subrange(a0 as int, a0 + i).push(a@[a0 + i]));
        assert(b@.subrange(b0 as int, b0 + i + 1) =~= b@.subrange(b0 as int, b0 + i).push(b@[b0 + i]));
        i = i + 1;
    }
    true
}

/// Whether the first `n` components of `a` and `b` compare equal.
fn keys_match(a: &[char], sa: &Vec<Span>, b: &[char], sb: &Vec<Span>, n: usize) -> (r: bool)
    requires
        spans_view(sa@) == components(a@),
        spans_view(sb@) == components(b@),
        n <= sa.len(),
        n <= sb.len(),
    ensures
        r == (comp_keys(a@).take(n as int) == comp_keys(b@).take(n as int)),
{
    proof {
        lemma_components_bounds(a@);
        lemma_components_bounds(b@);
    }
    let mut i: usize = 0;
    while i < n
        invariant
            i <= n <= sa.len(),
            n <= sb.len(),
            spans_view(sa@) == components(a@),
            spans_view(sb@) == components(b@),
            forall|k: int|
                0 <= k < components(a@).len() ==> 0 <= (#[trigger] components(a@)[k]).1
                    < components(a@)[k].2 <= a@.len(),
            forall|k: int|
                0 <= k < components(b@).len() ==> 0 <= (#[trigger] components(b@)[k]).1
                    < components(b@)[k].2 <= b@.len(),
            comp_keys(a@).take(i as int) == comp_keys(b@).take(i as int),
        decreases n - i,
    {
        let x = sa[i];
        let y = sb[i];
        assert(components(a@)[i as int] == (x.kind, x.start as int, x.end as int));
        assert(components(b@)[i as int] == (y.kind, y.start as int, y.end as int));
        let same = if x.kind != y.kind {
            false
        } else if x.kind == CompKind::Normal {
            ranges_eq(a, x.start, x.end, b, y.start, y.end)
        } else {
            true
        };
        assert(comp_keys(a@)[i as int] == comp_key(a@, components(a@)[i as int]));
        assert(comp_keys(b@)[i as int] == comp_key(b@, components(b@)[i as int]));
        if !same {
            assert(comp_keys(a@).take(n as int)[i as int] != comp_keys(b@).take(n as int)[i as int]);
            return false;
        }
        i = i + 1;
        assert(comp_keys(a@).take(i as int) =~= comp_keys(a@).take((i - 1) as int).push(
            comp_keys(a@)[i - 1],
        ));
        assert(comp_keys(b@).take(i as int) =~= comp_keys(b@).take((i - 1) as int).push(
            comp_keys(b@)[i - 1],
        ));
    }
    true
}

/// Whether two paths have the same components (`Path == Path`).
pub fn paths_equal(a: &str, b: &str) -> (r: bool)
    ensures
        r == path_eq(a@, b@),
{
    let ac = chars_of(a);
    let bc = chars_of(b);
    let sa = path_components(ac.as_slice());
    let sb = path_components(bc.as_slice());
    if sa.len() != sb.len() {
        assert(comp_keys(a@).len() != comp_keys(b@).len());
        return false;
    }
    let r = keys_match(ac.as_slice(), &sa, bc.as_slice(), &sb, sa.len());
    assert(comp_keys(a@).take(sa.len() as int) =~= comp_keys(a@));
    assert(comp_keys(b@).take(sb.len() as int) =~= comp_keys(b@));
    r
}

/// `p` without the leading components of `base` (`Path::strip_prefix`),
/// or `None` when `base` is not a prefix of `p`.
pub fn strip_path_prefix(p: &str, base: &str) -> (r: Option<String>)
    ensures
        match r {
            Some(s) => strip_path_prefix_spec(p@, base@) == Some(s@),
            None => strip_path_prefix_spec(p@, base@) is None,
        },
{
    let pc = chars_of(p);
    let bc = chars_of(base);
    let sp = path_components(pc.as_slice());
    let sb = path_components(bc.as_slice());
    assert(spans_view(sb@).len() == sb@.len());
    assert(spans_view(sp@).len() == sp@.len());
    assert(comp_keys(base@).len() == sb@.len());
    assert(comp_keys(p@).len() == sp@.len());
    if sb.len() > sp.len() {
        return None;
    }
    assert(comp_keys(base@).take(sb.len() as int) =~= comp_keys(base@));
    if !keys_match(pc.as_slice(), &sp, bc.as_slice(), &sb, sb.len()) {
        return None;
    }
    proof {
        lemma_components_bounds(p@);
    }
    let k = sb.len();
    if k >= sp.len() {
        return Some(String::new());
    }
    let start = if k == 0 {
        0
    } else {
        sp[k].start
    };
    let end = sp[sp.len() - 1].end;
    assert(components(p@)[k as int] == (sp@[k as int].kind, sp@[k as int].start as int, sp@[k as int].end as int));
    let last = sp.len() - 1;
    assert(components(p@)[last as int] == (sp@[last as int].kind, sp@[last as int].start as int, sp@[last as int].end as int));
    assert(components(p@).last() == components(p@)[last as int]);
    assert(sp@[k as int].start <= sp@[last as int].start) by {
        lemma_spans_ordered(p@, k as int, last as int);
    }
    let v = slice_chars(pc.as_slice(), start, end);
    Some(string_from_chars(&v))
}

/// The final component of `p` when it is a normal part (`Path::file_name`).
pub fn file_name(p: &str) -> (r: Option<String>)
    ensures
        match r {
            Some(s) => file_name_spec(p@) == Some(s@),
            None => file_name_spec(p@) is None,
        },
{
    let pc = chars_of(p);
    let sp = path_components(pc.as_slice());
    proof {
        lemma_components_bounds(p@);
    }
    if sp.len() == 0 {
        return None;
    }
    let last = sp[sp.len() - 1];
    assert(components(p@).last() == (last.kind, last.start as int, last.end as int));
    if last.kind != CompKind::Normal {
        return None;
    }
    let v = slice_chars(pc.as_slice(), last.start, last.end);
    Some(string_from_chars(&v))
}

/// `base` extended by `rel` (`Path::join`): `rel` itself when it is
/// absolute, else the two joined by a separator unless `base` is empty or
/// already ends with one.
pub open spec fn join_spec(base: Seq<char>, rel: Seq<char>) -> Seq<char> {
    if rel.len() > 0 && rel[0] == '/' {
        rel
    } else if base.len() > 0 && base.last() != '/' {
        base + seq!['/'] + rel
    } else {
        base + rel
    }
}

/// Joins `rel` onto `base` as `Path::join` does.
pub fn join_path(base: &str, rel: &str) -> (r: String)
    ensures
        r@ == join_spec(base@, rel@),
{
    let b = chars_of(base);
    let rc = chars_of(rel);
    if rc.len() > 0 && rc[0] == '/' {
        return string_from_chars(&rc);
    }
    let mut out = b;
    if out.len() > 0 && out[out.len() - 1] != '/' {
        out.push('/');
    }
    crate::text::push_chars(&mut out, &rc);
    string_from_chars(&out)
}

/// The path without its final component (`Path::parent`): none when the
/// path is empty or ends at the root; otherwise the text up to the end of
/// the component before the last (empty when there is none).
pub open spec fn parent_spec(p: Seq<char>) -> Option<Seq<char>> {
    let a = components(p);
    if a.len() == 0 || a.last().0 == CompKind::Root {
        None
    } else if a.len() == 1 {
        Some(Seq::empty())
    } else {
        Some(p.subrange(0, a[a.len() - 2].2))
    }
}

/// The path without its final component, as `Path::parent` gives it.
pub fn parent_path(p: &str) -> (r: Option<String>)
    ensures
        match r {
            Some(s) => parent_spec(p@) == Some(s@),
            None => parent_spec(p@) is None,
        },
{
    let pc = chars_of(p);
    let sp = path_components(pc.as_slice());
    proof {
        lemma_components_bounds(p@);
    }
    if sp.len() == 0 {
        return None;
    }
    let last = sp[sp.len() - 1];
    assert(components(p@).last() == (last.kind, last.start as int, last.end as int));
    if last.kind == CompKind::Root {
        return None;
    }
    if sp.len() == 1 {
        return Some(String::new());
    }
    let prev = sp[sp.len() - 2];
    assert(components(p@)[sp.len() - 2] == (prev.kind, prev.start as int, prev.end as int));
    let v = slice_chars(pc.as_slice(), 0, prev.end);
    Some(string_from_chars(&v))
}

} // verus!
