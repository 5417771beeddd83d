//! Format strings of custom modules: `{name}` variables, `[...]` optional
//! sections, and `{{` / `[[` escapes.
use vstd::prelude::*;

use crate::text::{chars_of, lemma_scan, push_str_chars, scan, str_eq, string_from_chars};

verus! {

/// A parsed piece of a format string, as mathematical values.
pub enum Fmt {
    /// Text shown as is.
    Lit(Seq<char>),
    /// A `{name}` placeholder.
    Var(Seq<char>),
    /// A `[...]` section shown only when all of its variables resolve.
    Opt(Seq<Fmt>),
}

/// A parsed piece of a format string.
#[derive(Debug, PartialEq, Eq)]
pub enum FormatSegment {
    /// Text shown as is.
    Literal(String),
    /// A `{name}` placeholder.
    Variable(String),
    /// A `[...]` section shown only when all of its variables resolve.
    Optional(Vec<FormatSegment>),
}

/// The mathematical value of a segment.
pub open spec fn fmt_view(s: FormatSegment) -> Fmt
    decreases s,
{
    match s {
        FormatSegment::Literal(t) => Fmt::Lit(t@),
        FormatSegment::Variable(t) => Fmt::Var(t@),
        FormatSegment::Optional(v) => Fmt::Opt(
            Seq::new(
                v@.len(),
                |i: int|
                    if 0 <= i < v@.len() {
                        fmt_view(v@[i])
                    } else {
                        Fmt::Lit(Seq::empty())
                    },
            ),
        ),
    }
}

/// The mathematical values of a list of segments.
pub open spec fn segs_view(v: Seq<FormatSegment>) -> Seq<Fmt> {
    Seq::new(v.len(), |i: int| fmt_view(v[i]))
}

/// The values of a stack of open segment lists.
pub open spec fn stack_view(st: Seq<Vec<FormatSegment>>) -> Seq<Seq<Fmt>> {
    Seq::new(st.len(), |i: int| segs_view(st[i]@))
}

/// `st` with `f` appended to its innermost list.
pub open spec fn push_top(st: Seq<Seq<Fmt>>, f: Fmt) -> Seq<Seq<Fmt>> {
    st.update(st.len() - 1, st.last().push(f))
}

/// `st` with the pending literal text `lit` (if any) appended as a literal.
pub open spec fn flush(st: Seq<Seq<Fmt>>, lit: Seq<char>) -> Seq<Seq<Fmt>> {
    if lit.len() > 0 { push_top(st, Fmt::Lit(lit)) } else { st }
}

/// Closes every open optional section, innermost first.
pub open spec fn close_all(st: Seq<Seq<Fmt>>) -> Seq<Fmt>
    decreases st.len(),
{
    if st.len() == 0 {
        Seq::empty()
    } else if st.len() == 1 {
        st[0]
    } else {
        close_all(push_top(st.drop_last(), Fmt::Opt(st.last())))
    }
}

/// Stops at a closing brace.
pub open spec fn stop_brace() -> spec_fn(char) -> bool {
    |c: char| c == '}'
}

/// Parses `s` from index `i`, with the open lists `st` (innermost last) and
/// the pending literal text `lit`.
pub open spec fn parse_from(s: Seq<char>, i: int, st: Seq<Seq<Fmt>>, lit: Seq<char>) -> Seq<Fmt>
    decreases s.len() - i,
{
    if i < 0 || i >= s.len() {
        close_all(flush(st, lit))
    } else {
        let c = s[i];
        let doubled = i + 1 < s.len() && s[i + 1] == c;
        if c == '{' && doubled {
            parse_from(s, i + 2, st, lit.push('{'))
        } else if c == '{' {
            let e = scan(s, i + 1, stop_brace());
            if e < i + 1 || e > s.len() {
                Seq::empty()
            } else {
                let named = push_top(flush(st, lit), Fmt::Var(s.subrange(i + 1, e)));
                parse_from(s, if e < s.len() { e + 1 } else { e }, named, Seq::empty())
            }
        } else if c == '[' && doubled {
            parse_from(s, i + 2, st, lit.push('['))
        } else if c == '[' {
            parse_from(s, i + 1, flush(st, lit).push(Seq::empty()), Seq::empty())
        } else if c == ']' && st.len() > 1 {
            let f = flush(st, lit);
            parse_from(s, i + 1, push_top(f.drop_last(), Fmt::Opt(f.last())), Seq::empty())
        } else {
            parse_from(s, i + 1, st, lit.push(c))
        }
    }
}

/// The segments of a format string.
pub open spec fn parse_format_spec(s: Seq<char>) -> Seq<Fmt> {
    parse_from(s, 0, seq![Seq::empty()], Seq::empty())
}

proof fn lemma_opt_view(v: Vec<FormatSegment>)
    ensures
        fmt_view(FormatSegment::Optional(v)) == Fmt::Opt(segs_view(v@)),
{
    let w = FormatSegment::Optional(v);
    let x = fmt_view(w);
    assert(x is Opt);
    assert(x->Opt_0.len() == v@.len());
    assert forall|i: int| 0 <= i < v@.len() implies x->Opt_0[i] == fmt_view(v@[i]) by {}
    assert(x->Opt_0 =~= segs_view(v@));
}

/// Appends `seg` to the innermost open list.
fn push_seg(stack: &mut Vec<Vec<FormatSegment>>, seg: FormatSegment)
    requires
        old(stack).len() >= 1,
    ensures
        final(stack).len() == old(stack).len(),
        stack_view(final(stack)@) == push_top(stack_view(old(stack)@), fmt_view(seg)),
{
    let ghost f = fmt_view(seg);
    let mut top = stack.pop().unwrap();
    let ghost before = top@;
    top.push(seg);
    assert(segs_view(top@) =~= segs_view(before).push(f));
    stack.push(top);
    assert(stack_view(stack@) =~= push_top(stack_view(old(stack)@), f));
}

/// Appends the pending literal text (if any) to the innermost open list.
fn flush_lit(stack: &mut Vec<Vec<FormatSegment>>, lit: &mut Vec<char>)
    requires
        old(stack).len() >= 1,
    ensures
        final(stack).len() == old(stack).len(),
        stack_view(final(stack)@) == flush(stack_view(old(stack)@), old(lit)@),
        final(lit)@ == Seq::<char>::empty(),
{
    if lit.len() > 0 {
        let text = string_from_chars(lit);
        push_seg(stack, FormatSegment::Literal(text));
        *lit = Vec::new();
    }
}

/// Closes the innermost open optional section.
fn close_one(stack: &mut Vec<Vec<FormatSegment>>)
    requires
        old(stack).len() >= 2,
    ensures
        final(stack).len() == old(stack).len() - 1,
        stack_view(final(stack)@) == push_top(
            stack_view(old(stack)@).drop_last(),
            Fmt::Opt(stack_view(old(stack)@).last()),
        ),
{
    let inner = stack.pop().unwrap();
    proof {
        lemma_opt_view(inner);
        assert(stack_view(stack@) =~= stack_view(old(stack)@).drop_last());
    }
    push_seg(stack, FormatSegment::Optional(inner));
}

/// Parses a format string into segments.
pub fn parse_format(input: &str) -> (r: Vec<FormatSegment>)
    ensures
        segs_view(r@) == parse_format_spec(input@),
{
    let s = chars_of(input);
    let mut stack: Vec<Vec<FormatSegment>> = Vec::new();
    stack.push(Vec::new());
    let mut lit: Vec<char> = Vec::new();
    let mut i: usize = 0;
    assert(stack_view(stack@) =~~= seq![Seq::<Fmt>::empty()]);
    while i < s.len()
        invariant
            i <= s.len(),
            s@ == input@,
            stack.len() >= 1,
            parse_from(s@, i as int, stack_view(stack@), lit@) == parse_format_spec(input@),
        decreases s.len() - i,
    {
        let c = s[i];
        let doubled = i + 1 < s.len() && s[i + 1] == c;
        if c == '{' && doubled {
            lit.push('{');
            i = i + 2;
        } else if c == '{' {
            flush_lit(&mut stack, &mut lit);
            let mut e = i + 1;
            while e < s.len() && s[e] != '}'
                invariant
                    i + 1 <= e <= s.len(),
                    scan(s@, i + 1, stop_brace()) == scan(s@, e as int, stop_brace()),
                decreases s.len() - e,
            {
                e = e + 1;
            }
            proof {
                lemma_scan(s@, i + 1, stop_brace());
            }
            let mut name: Vec<char> = Vec::new();
            let mut k = i + 1;
            while k < e
                invariant
                    i + 1 <= k <= e <= s.len(),
                    name@ == s@.subrange(i + 1, k as int),
                decreases e - k,
            {
                name.push(s[k]);
                k = k + 1;
                assert(name@ =~= s@.subrange(i + 1, k as int));
            }
            push_seg(&mut stack, FormatSegment::Variable(string_from_chars(&name)));
            i = if e < s.len() {
                e + 1
            } else {
                e
            };
        } else if c == '[' && doubled {
            lit.push('[');
            i = i + 2;
        } else if c == '[' {
            flush_lit(&mut stack, &mut lit);
            let ghost before = stack@;
            stack.push(Vec::new());
            assert(stack_view(stack@) =~~= stack_view(before).push(Seq::empty()));
            i = i + 1;
        } else if c == ']' && stack.len() > 1 {
            flush_lit(&mut stack, &mut lit);
            close_one(&mut stack);
            i = i + 1;
        } else {
            lit.push(c);
            i = i + 1;
        }
    }
    flush_lit(&mut stack, &mut lit);
    while stack.len() > 1
        invariant
            stack.len() >= 1,
            close_all(stack_view(stack@)) == parse_format_spec(input@),
        decreases stack.len(),
    {
        close_one(&mut stack);
    }
    let r = stack.pop().unwrap();
    assert(close_all(stack_view(seq![r])) == segs_view(r@));
    r
}

/// The value bound to `name`: the first pair with that name.
pub open spec fn lookup(values: Seq<(String, String)>, name: Seq<char>) -> Option<Seq<char>>
    decreases values.len(),
{
    if values.len() == 0 {
        None
    } else if values[0].0@ == name {
        Some(values[0].1@)
    } else {
        lookup(values.drop_first(), name)
    }
}

/// Finds the value bound to `name`.
pub fn lookup_value<'a>(values: &'a [(String, String)], name: &str) -> (r: Option<&'a String>)
    ensures
        match r {
            Some(v) => lookup(values@, name@) == Some(v@),
            None => lookup(values@, name@) is None,
        },
{
    let mut i: usize = 0;
    assert(values@.skip(0) =~= values@);
    while i < values.len()
        invariant
            i <= values.len(),
            lookup(values@.skip(i as int), name@) == lookup(values@, name@),
        decreases values.len() - i,
    {
        assert(values@.skip(i as int)[0] == values@[i as int]);
        assert(values@.skip(i as int).drop_first() =~= values@.skip(i + 1));
        if str_eq(values[i].0.as_str(), name) {
            return Some(&values[i].1);
        }
        i = i + 1;
    }
    assert(values@.skip(i as int) =~= Seq::<(String, String)>::empty());
    None
}

/// Renders segments with the given variable values: `None` when a required
/// variable is missing; an optional section shows only when all of its
/// variables resolve, and sections nested in a section never show.
pub open spec fn render_spec(segs: Seq<Fmt>, values: Seq<(String, String)>, in_opt: bool) -> Option<
    Seq<char>,
>
    decreases segs,
{
    if segs.len() == 0 {
        Some(Seq::empty())
    } else {
        match render_spec(segs.drop_last(), values, in_opt) {
            None => None,
            Some(prefix) => match segs.last() {
                Fmt::Lit(t) => Some(prefix + t),
                Fmt::Var(n) => match lookup(values, n) {
                    Some(v) => Some(prefix + v),
                    None => None,
                },
                Fmt::Opt(inner) => if in_opt {
                    Some(prefix)
                } else {
                    match render_spec(inner, values, true) {
                        Some(r) => Some(prefix + r),
                        None => Some(prefix),
                    }
                },
            },
        }
    }
}

fn render_segments(segments: &[FormatSegment], values: &[(String, String)], in_optional: bool) -> (r:
    Option<String>)
    ensures
        match r {
            Some(out) => render_spec(segs_view(segments@), values@, in_optional) == Some(out@),
            None => render_spec(segs_view(segments@), values@, in_optional) is None,
        },
    decreases if in_optional { 0int } else { 1int },
{
    let mut out: Vec<char> = Vec::new();
    let mut k: usize = 0;
    while k < segments.len()
        invariant
            k <= segments.len(),
            render_spec(segs_view(segments@).take(k as int), values@, in_optional) == Some(out@),
        decreases segments.len() - k,
    {
        let ghost prev = segs_view(segments@).take(k as int);
        let ghost cur = segs_view(segments@).take(k + 1);
        assert(cur.drop_last() =~= prev);
        assert(cur.last() == fmt_view(segments@[k as int]));
        match &segments[k] {
            FormatSegment::Literal(text) => {
                push_str_chars(&mut out, text.as_str());
            },
            FormatSegment::Variable(name) => {
                match lookup_value(values, name.as_str()) {
                    Some(v) => {
                        push_str_chars(&mut out, v.as_str());
                    },
                    None => {
                        proof {
                            lemma_render_none_extends(segs_view(segments@), values@, in_optional, k as int + 1);
                        }
                        return None;
                    },
                }
            },
            FormatSegment::Optional(inner) => {
                proof {
                    lemma_opt_view(*inner);
                }
                if !in_optional {
                    match render_segments(inner.as_slice(), values, true) {
                        Some(rendered) => {
                            push_str_chars(&mut out, rendered.as_str());
                        },
                        None => {},
                    }
                }
            },
        }
        k = k + 1;
    }
    assert(segs_view(segments@).take(segments.len() as int) =~= segs_view(segments@));
    Some(string_from_chars(&out))
}

proof fn lemma_render_none_extends(segs: Seq<Fmt>, values: Seq<(String, String)>, in_opt: bool, k: int)
    requires
        0 <= k <= segs.len(),
        render_spec(segs.take(k), values, in_opt) is None,
    ensures
        render_spec(segs, values, in_opt) is None,
    decreases segs.len() - k,
{
    if k < segs.len() {
        assert(segs.take(k + 1).drop_last() =~= segs.take(k));
        lemma_render_none_extends(segs, values, in_opt, k + 1);
    } else {
        assert(segs.take(k) =~= segs);
    }
}

/// Renders format segments with the given variable values.
pub fn render_format(segments: &[FormatSegment], values: &[(String, String)]) -> (r: Option<String>)
    ensures
        match r {
            Some(out) => render_spec(segs_view(segments@), values@, false) == Some(out@),
            None => render_spec(segs_view(segments@), values@, false) is None,
        },
{
    render_segments(segments, values, false)
}

/// A literal written in a format string: `{` and `[` doubled.
pub open spec fn escape_lit(t: Seq<char>) -> Seq<char>
    decreases t.len(),
{
    if t.len() == 0 {
        Seq::empty()
    } else {
        let c = t[0];
        (if c == '{' || c == '[' { seq![c, c] } else { seq![c] }) + escape_lit(t.subrange(1, t.len() as int))
    }
}

/// Segments written back as a format string: literals escaped, variables
/// as `{name}`, optional sections as `[...]`.
pub open spec fn unparse(v: Seq<Fmt>) -> Seq<char>
    decreases v,
{
    if v.len() == 0 {
        Seq::empty()
    } else {
        let first = match v[0] {
            Fmt::Lit(t) => escape_lit(t),
            Fmt::Var(n) => seq!['{'] + n + seq!['}'],
            Fmt::Opt(w) => seq!['['] + unparse(w) + seq![']'],
        };
        first + unparse(v.subrange(1, v.len() as int))
    }
}

/// Whether `f` is written starting with `[`: an optional section, or a
/// literal starting with `[`.
pub open spec fn opens_bracket(f: Fmt) -> bool {
    match f {
        Fmt::Opt(_) => true,
        Fmt::Lit(t) => t.len() > 0 && t[0] == '[',
        Fmt::Var(_) => false,
    }
}

/// Whether segments read back as themselves once written: literals are not
/// empty and never follow one another, and inside a section (`nested`) hold
/// no `]`; names hold no `}` and do not start with `{`; a section's contents
/// are such segments and do not start with `[`.
pub open spec fn well_written(v: Seq<Fmt>, nested: bool) -> bool
    decreases v,
{
    if v.len() == 0 {
        true
    } else {
        let ok = match v[0] {
            Fmt::Lit(t) => t.len() > 0 && (nested ==> !t.contains(']')) && (v.len() > 1 ==> !(v[1] is Lit)),
            Fmt::Var(n) => !n.contains('}') && (n.len() > 0 ==> n[0] != '{'),
            Fmt::Opt(w) => well_written(w, true) && (w.len() > 0 ==> !opens_bracket(w[0])),
        };
        ok && well_written(v.subrange(1, v.len() as int), nested)
    }
}

/// Parsing a written literal adds its text to the pending literal.
proof fn lemma_parse_lit(s: Seq<char>, i: int, t: Seq<char>, st: Seq<Seq<Fmt>>, lit: Seq<char>)
    requires
        0 <= i,
        i + escape_lit(t).len() <= s.len(),
        s.subrange(i, i + escape_lit(t).len()) == escape_lit(t),
        st.len() > 1 ==> !t.contains(']'),
    ensures
        parse_from(s, i, st, lit) == parse_from(s, i + escape_lit(t).len(), st, lit + t),
    decreases t.len(),
{
    let e = escape_lit(t);
    if t.len() == 0 {
        assert(lit + t =~= lit);
    } else {
        let c = t[0];
        let rest = t.subrange(1, t.len() as int);
        let head: Seq<char> = if c == '{' || c == '[' { seq![c, c] } else { seq![c] };
        assert(e == head + escape_lit(rest));
        assert(s[i] == e[0]);
        assert(e[0] == c);
        if !(c == '{' || c == '[') {
            assert(t.contains(c) ==> c != ']' || st.len() <= 1) by {
                assert(t[0] == c);
            }
        }
        let j = i + head.len();
        assert forall|k: int| 0 <= k < escape_lit(rest).len() implies s.subrange(j, j + escape_lit(rest).len())[k]
            == escape_lit(rest)[k] by {
            assert(s.subrange(i, i + e.len())[head.len() + k] == e[head.len() + k]);
        }
        assert(s.subrange(j, j + escape_lit(rest).len()) =~= escape_lit(rest));
        if st.len() > 1 {
            assert forall|q: int| 0 <= q < rest.len() implies rest[q] != ']' by {
                assert(rest[q] == t[q + 1]);
                if rest[q] == ']' {
                    assert(t.contains(']'));
                }
            }
            assert(!rest.contains(']'));
        }
        if c == '{' || c == '[' {
            assert(s[i + 1] == e[1]);
        }
        lemma_parse_lit(s, j, rest, st, lit.push(c));
        assert(lit.push(c) + rest =~= lit + t);
    }
}

/// `st` with `v` appended to its innermost list.
pub open spec fn push_all(st: Seq<Seq<Fmt>>, v: Seq<Fmt>) -> Seq<Seq<Fmt>> {
    st.update(st.len() - 1, st.last() + v)
}

/// Whether `v` ends with a literal.
pub open spec fn ends_in_lit(v: Seq<Fmt>) -> bool {
    v.len() > 0 && v.last() is Lit
}

/// `v` without a final literal, which the parser still holds as pending text.
pub open spec fn settled(v: Seq<Fmt>) -> Seq<Fmt> {
    if ends_in_lit(v) { v.drop_last() } else { v }
}

/// The text of a final literal of `v`, or nothing.
pub open spec fn trailing_lit(v: Seq<Fmt>) -> Seq<char> {
    if ends_in_lit(v) { v.last()->Lit_0 } else { Seq::empty() }
}

proof fn lemma_push_all_cons(y: Seq<Seq<Fmt>>, f: Fmt, x: Seq<Fmt>)
    requires
        y.len() >= 1,
    ensures
        push_all(push_top(y, f), x) == push_all(y, seq![f] + x),
{
    assert(y.last().push(f) + x =~= y.last() + (seq![f] + x));
    assert(push_top(y, f).last() == y.last().push(f));
    assert(push_all(push_top(y, f), x) =~= push_all(y, seq![f] + x));
}

proof fn lemma_settled_cons(f: Fmt, r: Seq<Fmt>)
    requires
        r.len() > 0,
    ensures
        ends_in_lit(seq![f] + r) == ends_in_lit(r),
        settled(seq![f] + r) == seq![f] + settled(r),
        trailing_lit(seq![f] + r) == trailing_lit(r),
{
    let v = seq![f] + r;
    assert(v.last() == r.last());
    assert(v.drop_last() =~= seq![f] + r.drop_last());
}

proof fn lemma_flush_settled(x: Seq<Seq<Fmt>>, w: Seq<Fmt>)
    requires
        x.len() >= 1,
        ends_in_lit(w) ==> trailing_lit(w).len() > 0,
    ensures
        flush(push_all(x, settled(w)), trailing_lit(w)) == push_all(x, w),
{
    if ends_in_lit(w) {
        assert(w.drop_last().push(w.last()) =~= w);
        assert(w.last() == Fmt::Lit(trailing_lit(w)));
        assert(flush(push_all(x, settled(w)), trailing_lit(w)) =~= push_all(x, w));
    }
}

/// Parsing written segments, one after another, appends them to the
/// innermost open list (a final literal stays pending).
proof fn lemma_parse_segments(s: Seq<char>, i: int, v: Seq<Fmt>, st: Seq<Seq<Fmt>>, lit: Seq<char>)
    requires
        0 <= i,
        i + unparse(v).len() <= s.len(),
        s.subrange(i, i + unparse(v).len()) == unparse(v),
        st.len() >= 1,
        well_written(v, st.len() > 1),
        v.len() > 0,
        lit.len() > 0 ==> !(v[0] is Lit),
    ensures
        parse_from(s, i, st, lit) == parse_from(
            s,
            i + unparse(v).len(),
            push_all(flush(st, lit), settled(v)),
            trailing_lit(v),
        ),
        ends_in_lit(v) ==> trailing_lit(v).len() > 0,
    decreases v,
{
    let f = v[0];
    let r = v.subrange(1, v.len() as int);
    let uf = match f {
        Fmt::Lit(t) => escape_lit(t),
        Fmt::Var(n) => seq!['{'] + n + seq!['}'],
        Fmt::Opt(w) => seq!['['] + unparse(w) + seq![']'],
    };
    let u = unparse(v);
    assert(u == uf + unparse(r));
    let j = i + uf.len();
    assert forall|k: int| 0 <= k < uf.len() implies s[i + k] == uf[k] by {
        assert(s.subrange(i, i + u.len())[k] == u[k]);
    }
    assert forall|k: int| 0 <= k < unparse(r).len() implies s.subrange(j, j + unparse(r).len())[k]
        == unparse(r)[k] by {
        assert(s.subrange(i, i + u.len())[uf.len() + k] == u[uf.len() + k]);
    }
    assert(s.subrange(j, j + unparse(r).len()) =~= unparse(r));
    assert(v =~= seq![f] + r);
    let st1 = match f {
        Fmt::Lit(_) => st,
        _ => push_top(flush(st, lit), f),
    };
    let lit1 = match f {
        Fmt::Lit(t) => t,
        _ => Seq::<char>::empty(),
    };
    match f {
        Fmt::Lit(t) => {
            assert(lit =~= Seq::<char>::empty());
            assert(s.subrange(i, i + escape_lit(t).len()) =~= escape_lit(t));
            lemma_parse_lit(s, i, t, st, lit);
            assert(lit + t =~= t);
        },
        Fmt::Var(n) => {
            assert(s[i + 0] == uf[0]);
            assert(s[i] == '{');
            assert(s[i + 1] == uf[1]);
            if n.len() > 0 {
                assert(s[i + 1] == n[0]);
            } else {
                assert(s[i + 1] == '}');
            }
            lemma_scan(s, i + 1, stop_brace());
            let e = scan(s, i + 1, stop_brace());
            let end = i + 1 + n.len();
            assert(s[end] == uf[n.len() as int + 1]);
            assert(s[end] == '}');
            if e < end {
                assert(s[e] == uf[e - i]);
                assert(uf[e - i] == n[e - i - 1]);
                assert(n.contains('}'));
            }
            assert(e == end);
            assert(s.subrange(i + 1, e) =~= n) by {
                assert forall|k: int| 0 <= k < n.len() implies s.subrange(i + 1, e)[k] == n[k] by {
                    assert(s[i + 1 + k] == uf[k + 1]);
                }
            }
        },
        Fmt::Opt(w) => {
            assert(s[i + 0] == uf[0]);
            assert(s[i] == '[');
            assert(s[i + 1] == uf[1]);
            let st0 = flush(st, lit).push(Seq::<Fmt>::empty());
            let p = i + 1 + unparse(w).len();
            assert(s[p] == uf[unparse(w).len() as int + 1]);
            assert(s[p] == ']');
            if w.len() == 0 {
                assert(unparse(w).len() == 0);
                assert(s[i + 1] == ']');
                assert(parse_from(s, i, st, lit) == parse_from(s, i + 1, st0, Seq::empty()));
                assert(flush(st0, Seq::<char>::empty()) == st0);
                assert(st0.drop_last() =~= flush(st, lit));
                assert(w =~= st0.last());
            } else {
                let w0 = w[0];
                let wr = w.subrange(1, w.len() as int);
                match w0 {
                    Fmt::Lit(t) => {
                        assert(well_written(w, true));
                        assert(w[0] == w0);
                        assert(t.len() > 0);
                        assert(unparse(w) == escape_lit(t) + unparse(wr));
                        let tr = t.subrange(1, t.len() as int);
                        let head: Seq<char> = if t[0] == '{' || t[0] == '[' { seq![t[0], t[0]] } else { seq![t[0]] };
                        assert(escape_lit(t) == head + escape_lit(tr));
                        assert(unparse(w)[0] == t[0]);
                    },
                    Fmt::Var(n) => {
                        assert(unparse(w)[0] == '{');
                    },
                    Fmt::Opt(_) => {},
                }
                assert(uf[1] == unparse(w)[0]);
                assert(s[i + 1] == unparse(w)[0]);
                assert(s[i + 1] != '[');
                assert(parse_from(s, i, st, lit) == parse_from(s, i + 1, st0, Seq::empty()));
                assert(s.subrange(i + 1, p) =~= unparse(w)) by {
                    assert forall|k: int| 0 <= k < unparse(w).len() implies s.subrange(i + 1, p)[k]
                        == unparse(w)[k] by {
                        assert(s[i + 1 + k] == uf[k + 1]);
                    }
                }
                lemma_parse_segments(s, i + 1, w, st0, Seq::empty());
                assert(flush(st0, Seq::<char>::empty()) == st0);
                let st2 = push_all(st0, settled(w));
                let l2 = trailing_lit(w);
                lemma_flush_settled(st0, w);
                let f2 = flush(st2, l2);
                assert(f2 == push_all(st0, w));
                assert(f2.last() =~= w);
                assert(f2.drop_last() =~= flush(st, lit));
                assert(parse_from(s, p, st2, l2) == parse_from(s, p + 1, push_top(flush(st, lit), f), Seq::empty()));
            }
        },
    }
    assert(parse_from(s, i, st, lit) == parse_from(s, j, st1, lit1));
    if r.len() == 0 {
        assert(v.last() == f);
        assert(v.drop_last() =~= Seq::<Fmt>::empty());
        match f {
            Fmt::Lit(t) => {
                assert(push_all(flush(st, lit), settled(v)) =~= st);
            },
            _ => {
                assert(settled(v) == v);
                assert(flush(st, lit).last() + seq![f] =~= flush(st, lit).last().push(f));
                assert(push_all(flush(st, lit), settled(v)) =~= push_top(flush(st, lit), f));
            },
        }
    } else {
        if lit1.len() > 0 {
            assert(v[1] == r[0]);
        }
        lemma_parse_segments(s, j, r, st1, lit1);
        lemma_settled_cons(f, r);
        match f {
            Fmt::Lit(t) => {
                assert(flush(st1, lit1) == push_top(st, f));
                assert(flush(st, lit) == st);
                lemma_push_all_cons(st, f, settled(r));
            },
            _ => {
                assert(flush(st1, lit1) == st1);
                lemma_push_all_cons(flush(st, lit), f, settled(r));
            },
        }
    }
}

/// Round trip: segments written back as a format string (literals escaped,
/// `{name}`, `[...]`) parse back to the same segments, whenever they can be
/// written unambiguously (see [`well_written`]).
pub proof fn lemma_format_round_trip(v: Seq<Fmt>)
    requires
        well_written(v, false),
    ensures
        parse_format_spec(unparse(v)) == v,
{
    let s = unparse(v);
    let st: Seq<Seq<Fmt>> = seq![Seq::empty()];
    let lit = Seq::<char>::empty();
    if v.len() == 0 {
        assert(flush(st, lit) == st);
        assert(close_all(st) == st[0]);
        assert(st[0] =~= v);
    } else {
        assert(s.subrange(0, s.len() as int) =~= s);
        lemma_parse_segments(s, 0, v, st, lit);
        assert(flush(st, lit) == st);
        lemma_flush_settled(st, v);
        let f = flush(push_all(st, settled(v)), trailing_lit(v));
        assert(f =~= seq![v]);
        assert(close_all(f) == f[0]);
    }
}

} // verus!
