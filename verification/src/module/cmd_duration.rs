//! Command duration module — displays how long the last command took.
use vstd::prelude::*;

use super::{Module, ModuleOutput, ModuleSpeed, RenderContext};
use crate::text::{decimal, digit_char, push_decimal, string_from_chars};

verus! {

/// The default threshold: commands shorter than two seconds are not shown.
pub const DEFAULT_THRESHOLD_MS: u64 = 2000;

/// `n` followed by `unit` when `n > 0`, else nothing.
pub open spec fn unit_part(n: nat, unit: char) -> Seq<char> {
    if n > 0 { decimal(n) + seq![unit] } else { Seq::empty() }
}

/// Human-readable duration: `1d1h1m1s`, omitting zero units, with seconds
/// shown when they are non-zero or when nothing else is.
pub open spec fn duration_text(ms: nat) -> Seq<char> {
    let total = ms / 1000;
    let days = total / 86400;
    let hours = (total % 86400) / 3600;
    let minutes = (total % 3600) / 60;
    let secs = total % 60;
    let head = unit_part(days, 'd') + unit_part(hours, 'h') + unit_part(minutes, 'm');
    if head.len() == 0 || secs > 0 {
        head + decimal(secs) + seq!['s']
    } else {
        head
    }
}

proof fn lemma_decimal_nonempty(n: nat)
    ensures
        decimal(n).len() > 0,
    decreases n,
{
    if n >= 10 {
        lemma_decimal_nonempty(n / 10);
    }
}

fn push_unit(out: &mut Vec<char>, n: u64, unit: char)
    ensures
        final(out)@ == old(out)@ + unit_part(n as nat, unit),
{
    if n > 0 {
        push_decimal(out, n);
        out.push(unit);
        assert(final(out)@ =~= old(out)@ + unit_part(n as nat, unit));
    } else {
        assert(old(out)@ + Seq::<char>::empty() =~= old(out)@);
    }
}

/// Formats a duration in milliseconds.
pub fn format_duration(ms: u64) -> (r: String)
    ensures
        r@ == duration_text(ms as nat),
{
    let total_secs = ms / 1000;
    let days = total_secs / 86400;
    let hours = (total_secs % 86400) / 3600;
    let minutes = (total_secs % 3600) / 60;
    let secs = total_secs % 60;
    let mut out: Vec<char> = Vec::new();
    push_unit(&mut out, days, 'd');
    push_unit(&mut out, hours, 'h');
    push_unit(&mut out, minutes, 'm');
    assert(out@ =~= unit_part(days as nat, 'd') + unit_part(hours as nat, 'h') + unit_part(
        minutes as nat,
        'm',
    ));
    if out.len() == 0 || secs > 0 {
        push_decimal(&mut out, secs);
        out.push('s');
    }
    assert(out@ =~= duration_text(ms as nat));
    string_from_chars(&out)
}

/// Seconds in one unit of a duration text: `d`, `h`, `m`, `s`.
pub open spec fn unit_seconds(c: char) -> int {
    if c == 'd' {
        86400
    } else if c == 'h' {
        3600
    } else if c == 'm' {
        60
    } else if c == 's' {
        1
    } else {
        0
    }
}

/// Whether `c` is an ASCII digit.
pub open spec fn is_digit(c: char) -> bool {
    '0' <= c && c <= '9'
}

/// The number written by the digits `d`.
pub open spec fn digits_value(d: Seq<char>) -> int
    decreases d.len(),
{
    if d.len() == 0 {
        0
    } else {
        digits_value(d.drop_last()) * 10 + ((d.last() as int) - ('0' as int))
    }
}

/// A duration text read back, left to right, as (number, unit) groups: the
/// digits before each non-digit character make its number.
pub open spec fn duration_groups(t: Seq<char>, digits: Seq<char>) -> Seq<(int, char)>
    decreases t.len(),
{
    if t.len() == 0 {
        Seq::empty()
    } else {
        let c = t[0];
        let rest = t.subrange(1, t.len() as int);
        if is_digit(c) {
            duration_groups(rest, digits.push(c))
        } else {
            seq![(digits_value(digits), c)] + duration_groups(rest, Seq::empty())
        }
    }
}

/// The seconds that groups add up to.
pub open spec fn groups_seconds(g: Seq<(int, char)>) -> int
    decreases g.len(),
{
    if g.len() == 0 {
        0
    } else {
        g[0].0 * unit_seconds(g[0].1) + groups_seconds(g.drop_first())
    }
}

/// Whether a group's unit is one of `d`, `h`, `m`, `s` and its number stays
/// below the next larger unit (hours below 24, minutes and seconds below 60).
pub open spec fn group_in_range(g: (int, char)) -> bool {
    &&& (g.1 == 'd' || g.1 == 'h' || g.1 == 'm' || g.1 == 's')
    &&& g.0 >= 0
    &&& (g.1 == 'h' ==> g.0 < 24)
    &&& (g.1 == 'm' || g.1 == 's' ==> g.0 < 60)
}

proof fn lemma_digit_chars(k: nat)
    requires
        k < 10,
    ensures
        is_digit(digit_char(k)),
        (digit_char(k) as int) - ('0' as int) == k,
{
}

proof fn lemma_decimal_digits(n: nat)
    ensures
        forall|i: int| 0 <= i < decimal(n).len() ==> is_digit(#[trigger] decimal(n)[i]),
        digits_value(decimal(n)) == n,
    decreases n,
{
    assert(digits_value(Seq::<char>::empty()) == 0);
    if n < 10 {
        lemma_digit_chars(n);
        assert(decimal(n).drop_last() =~= Seq::<char>::empty());
    } else {
        lemma_decimal_digits(n / 10);
        lemma_digit_chars(n % 10);
        let d = decimal(n / 10);
        assert(decimal(n) == d.push(digit_char(n % 10)));
        assert(decimal(n).drop_last() =~= d);
        assert(decimal(n).last() == digit_char(n % 10));
        assert(digits_value(decimal(n)) == (n / 10) * 10 + n % 10);
        assert forall|i: int| 0 <= i < decimal(n).len() implies is_digit(#[trigger] decimal(n)[i]) by {
            if i < d.len() {
                assert(decimal(n)[i] == d[i]);
            }
        }
    }
}

proof fn lemma_groups_digits(d: Seq<char>, t: Seq<char>, acc: Seq<char>)
    requires
        forall|i: int| 0 <= i < d.len() ==> is_digit(#[trigger] d[i]),
    ensures
        duration_groups(d + t, acc) == duration_groups(t, acc + d),
    decreases d.len(),
{
    if d.len() == 0 {
        assert(d + t =~= t);
        assert(acc + d =~= acc);
    } else {
        let x = d + t;
        assert(x[0] == d[0]);
        let dr = d.subrange(1, d.len() as int);
        assert(x.subrange(1, x.len() as int) =~= dr + t);
        assert forall|i: int| 0 <= i < dr.len() implies is_digit(#[trigger] dr[i]) by {
            assert(dr[i] == d[i + 1]);
        }
        lemma_groups_digits(dr, t, acc.push(d[0]));
        assert(acc.push(d[0]) + dr =~= acc + d);
    }
}

/// A number followed by a unit letter reads back as that group.
proof fn lemma_groups_group(n: nat, u: char, t: Seq<char>)
    requires
        !is_digit(u),
    ensures
        duration_groups(decimal(n) + seq![u] + t, Seq::empty()) == seq![(n as int, u)] + duration_groups(
            t,
            Seq::empty(),
        ),
{
    lemma_decimal_digits(n);
    let ut = seq![u] + t;
    assert(decimal(n) + seq![u] + t =~= decimal(n) + ut);
    lemma_groups_digits(decimal(n), ut, Seq::empty());
    assert(Seq::<char>::empty() + decimal(n) =~= decimal(n));
    assert(ut[0] == u);
    assert(ut.subrange(1, ut.len() as int) =~= t);
}

/// The group of a unit part: one group when the number is not zero.
pub open spec fn unit_group(n: nat, u: char) -> Seq<(int, char)> {
    if n > 0 { seq![(n as int, u)] } else { Seq::empty() }
}

proof fn lemma_groups_unit_part(n: nat, u: char, t: Seq<char>)
    requires
        !is_digit(u),
    ensures
        duration_groups(unit_part(n, u) + t, Seq::empty()) == unit_group(n, u) + duration_groups(t, Seq::empty()),
{
    if n > 0 {
        lemma_groups_group(n, u, t);
        assert(unit_part(n, u) + t =~= decimal(n) + seq![u] + t);
    } else {
        assert(unit_part(n, u) + t =~= t);
        assert(unit_group(n, u) + duration_groups(t, Seq::empty()) =~= duration_groups(t, Seq::empty()));
    }
}

proof fn lemma_groups_seconds_concat(a: Seq<(int, char)>, b: Seq<(int, char)>)
    ensures
        groups_seconds(a + b) == groups_seconds(a) + groups_seconds(b),
    decreases a.len(),
{
    if a.len() == 0 {
        assert(a + b =~= b);
    } else {
        assert((a + b)[0] == a[0]);
        assert((a + b).drop_first() =~= a.drop_first() + b);
        lemma_groups_seconds_concat(a.drop_first(), b);
    }
}

proof fn lemma_single_group_seconds(v: int, u: char)
    ensures
        groups_seconds(seq![(v, u)]) == v * unit_seconds(u),
{
    assert(seq![(v, u)].drop_first() =~= Seq::<(int, char)>::empty());
    assert(groups_seconds(Seq::<(int, char)>::empty()) == 0);
}

proof fn lemma_unit_group_seconds(n: nat, u: char)
    ensures
        groups_seconds(unit_group(n, u)) == n * unit_seconds(u),
{
    assert(groups_seconds(Seq::<(int, char)>::empty()) == 0);
    if n > 0 {
        assert(unit_group(n, u).drop_first() =~= Seq::<(int, char)>::empty());
    }
}

/// Appending a group whose unit is smaller than every unit before it keeps
/// the units strictly decreasing.
proof fn lemma_append_smaller_unit(a: Seq<(int, char)>, b: Seq<(int, char)>, floor: int)
    requires
        forall|k: int, l: int| 0 <= k < l < a.len() ==> unit_seconds(#[trigger] a[k].1) > unit_seconds(#[trigger] a[l].1),
        forall|k: int| 0 <= k < a.len() ==> unit_seconds(#[trigger] a[k].1) > floor,
        b.len() <= 1,
        forall|k: int| 0 <= k < b.len() ==> unit_seconds(#[trigger] b[k].1) <= floor,
    ensures
        forall|k: int, l: int|
            0 <= k < l < (a + b).len() ==> unit_seconds(#[trigger] (a + b)[k].1) > unit_seconds(#[trigger] (a + b)[l].1),
{
    assert forall|k: int, l: int| 0 <= k < l < (a + b).len() implies unit_seconds(#[trigger] (a + b)[k].1)
        > unit_seconds(#[trigger] (a + b)[l].1) by {
        assert((a + b)[k] == a[k]);
        if l < a.len() {
            assert((a + b)[l] == a[l]);
        } else {
            assert((a + b)[l] == b[l - a.len()]);
        }
    }
}

/// The whole-second total split into days, hours, minutes and seconds.
proof fn lemma_duration_parts(total: nat)
    ensures
        86400 * (total / 86400) + 3600 * ((total % 86400) / 3600) + 60 * ((total % 3600) / 60) + total % 60 == total,
        (total % 86400) / 3600 < 24,
        (total % 3600) / 60 < 60,
        total % 60 < 60,
{
    let r1 = total % 86400;
    let r2 = total % 3600;
    vstd::arithmetic::div_mod::lemma_fundamental_div_mod(total as int, 86400);
    vstd::arithmetic::div_mod::lemma_fundamental_div_mod(r1 as int, 3600);
    vstd::arithmetic::div_mod::lemma_mod_mod(total as int, 3600, 24);
    vstd::arithmetic::div_mod::lemma_fundamental_div_mod(r2 as int, 60);
    vstd::arithmetic::div_mod::lemma_mod_mod(total as int, 60, 60);
    assert(r1 % 3600 == r2);
    assert(r2 % 60 == total % 60);
}

/// The seconds group of a duration text, when it has one.
pub open spec fn seconds_group(ms: nat) -> Seq<(int, char)> {
    let total = ms / 1000;
    let head = unit_part(total / 86400, 'd') + unit_part((total % 86400) / 3600, 'h') + unit_part(
        (total % 3600) / 60,
        'm',
    );
    if head.len() == 0 || total % 60 > 0 { seq![((total % 60) as int, 's')] } else { Seq::empty() }
}

proof fn lemma_duration_groups(ms: nat)
    ensures
        duration_groups(duration_text(ms), Seq::empty()) == unit_group((ms / 1000) / 86400, 'd') + unit_group(
            ((ms / 1000) % 86400) / 3600,
            'h',
        ) + unit_group(((ms / 1000) % 3600) / 60, 'm') + seconds_group(ms),
{
    let total = ms / 1000;
    let days = total / 86400;
    let hours = (total % 86400) / 3600;
    let minutes = (total % 3600) / 60;
    let secs = total % 60;
    let head = unit_part(days, 'd') + unit_part(hours, 'h') + unit_part(minutes, 'm');
    let with_secs = head.len() == 0 || secs > 0;
    let tail: Seq<char> = if with_secs { decimal(secs) + seq!['s'] } else { Seq::empty() };
    let text = duration_text(ms);
    assert(text == head + tail);
    let gs = seconds_group(ms);
    assert(duration_groups(tail, Seq::empty()) == gs) by {
        if with_secs {
            lemma_groups_group(secs, 's', Seq::empty());
            assert(decimal(secs) + seq!['s'] + Seq::<char>::empty() =~= tail);
            assert(duration_groups(Seq::<char>::empty(), Seq::<char>::empty()) =~= Seq::<(int, char)>::empty());
            assert(seq![(secs as int, 's')] + Seq::<(int, char)>::empty() =~= gs);
        }
    }
    lemma_groups_unit_part(minutes, 'm', tail);
    lemma_groups_unit_part(hours, 'h', unit_part(minutes, 'm') + tail);
    lemma_groups_unit_part(days, 'd', unit_part(hours, 'h') + (unit_part(minutes, 'm') + tail));
    assert(text =~= unit_part(days, 'd') + (unit_part(hours, 'h') + (unit_part(minutes, 'm') + tail)));
    let gd = unit_group(days, 'd');
    let gh = unit_group(hours, 'h');
    let gm = unit_group(minutes, 'm');
    assert(gd + (gh + (gm + gs)) =~= gd + gh + gm + gs);
}

/// Read-back law: the text of a duration reads back as (number, unit) groups
/// that add up to exactly the whole seconds of `ms`, with units among `d`,
/// `h`, `m`, `s` in strictly decreasing size, numbers below the next unit,
/// and no zero group except a lone `0s`; the text ends with a unit letter.
#[verifier::rlimit(40)]
pub proof fn lemma_duration_reads_back(ms: nat)
    ensures
        groups_seconds(duration_groups(duration_text(ms), Seq::empty())) == ms / 1000,
        forall|k: int|
            0 <= k < duration_groups(duration_text(ms), Seq::empty()).len() ==> group_in_range(
                #[trigger] duration_groups(duration_text(ms), Seq::empty())[k],
            ),
        forall|k: int, l: int|
            0 <= k < l < duration_groups(duration_text(ms), Seq::empty()).len() ==> unit_seconds(
                #[trigger] duration_groups(duration_text(ms), Seq::empty())[k].1,
            ) > unit_seconds(#[trigger] duration_groups(duration_text(ms), Seq::empty())[l].1),
        ms / 1000 > 0 ==> forall|k: int|
            0 <= k < duration_groups(duration_text(ms), Seq::empty()).len() ==> (#[trigger] duration_groups(
                duration_text(ms),
                Seq::empty(),
            )[k]).0 > 0,
        ms / 1000 == 0 ==> duration_groups(duration_text(ms), Seq::empty()) == seq![(0int, 's')],
        duration_text(ms).len() > 0 && !is_digit(duration_text(ms).last()),
{
    let total = ms / 1000;
    let days = total / 86400;
    let hours = (total % 86400) / 3600;
    let minutes = (total % 3600) / 60;
    let secs = total % 60;
    let gd = unit_group(days, 'd');
    let gh = unit_group(hours, 'h');
    let gm = unit_group(minutes, 'm');
    let gs = seconds_group(ms);
    let head = unit_part(days, 'd') + unit_part(hours, 'h') + unit_part(minutes, 'm');
    let with_secs = head.len() == 0 || secs > 0;
    lemma_duration_groups(ms);
    lemma_duration_parts(total);
    let g = duration_groups(duration_text(ms), Seq::empty());
    assert(g == gd + gh + gm + gs);
    // The sum.
    lemma_groups_seconds_concat(gd + gh + gm, gs);
    lemma_groups_seconds_concat(gd + gh, gm);
    lemma_groups_seconds_concat(gd, gh);
    lemma_unit_group_seconds(days, 'd');
    lemma_unit_group_seconds(hours, 'h');
    lemma_unit_group_seconds(minutes, 'm');
    assert(groups_seconds(gs) == secs) by {
        if with_secs {
            assert(gs == seq![(secs as int, 's')]);
            lemma_single_group_seconds(secs as int, 's');
        } else {
            assert(gs =~= Seq::<(int, char)>::empty());
            assert(secs == 0);
        }
    }
    // Ranges and zero groups.
    assert forall|k: int| 0 <= k < g.len() implies group_in_range(#[trigger] g[k]) && (total > 0 ==> g[k].0 > 0) by {
        let a = gd + gh;
        let b = a + gm;
        if k < gd.len() {
            assert(g[k] == gd[k]);
        } else if k < a.len() {
            assert(g[k] == gh[k - gd.len()]);
        } else if k < b.len() {
            assert(g[k] == gm[k - a.len()]);
        } else {
            assert(g[k] == gs[k - b.len()]);
            if total > 0 && secs == 0 {
                assert(days > 0 || hours > 0 || minutes > 0);
                assert(head.len() > 0);
            }
        }
    }
    // Order.
    lemma_append_smaller_unit(Seq::empty(), gd, 86400);
    assert(Seq::<(int, char)>::empty() + gd =~= gd);
    assert forall|k: int| 0 <= k < (gd + gh).len() implies unit_seconds(#[trigger] (gd + gh)[k].1) > 60 by {
        if k < gd.len() {
            assert((gd + gh)[k] == gd[k]);
        } else {
            assert((gd + gh)[k] == gh[k - gd.len()]);
        }
    }
    lemma_append_smaller_unit(gd, gh, 3600);
    lemma_append_smaller_unit(gd + gh, gm, 60);
    assert forall|k: int| 0 <= k < (gd + gh + gm).len() implies unit_seconds(#[trigger] (gd + gh + gm)[k].1) > 1 by {
        if k < (gd + gh).len() {
            assert((gd + gh + gm)[k] == (gd + gh)[k]);
        } else {
            assert((gd + gh + gm)[k] == gm[k - (gd + gh).len()]);
        }
    }
    lemma_append_smaller_unit(gd + gh + gm, gs, 1);
    // A zero duration.
    if total == 0 {
        assert(g =~= seq![(0int, 's')]);
    }
    // The last character.
    let text = duration_text(ms);
    if with_secs {
        assert(text.last() == 's');
    } else if minutes > 0 {
        assert(text.last() == 'm');
    } else if hours > 0 {
        assert(text =~= unit_part(days, 'd') + unit_part(hours, 'h'));
        assert(text.last() == 'h');
    } else {
        assert(text =~= unit_part(days, 'd'));
        assert(text.last() == 'd');
    }
}

/// Displays the last command's duration once it reaches a threshold.
#[derive(Debug)]
pub struct CmdDurationModule {
    threshold_ms: u64,
}

impl Default for CmdDurationModule {
    fn default() -> (r: Self)
        ensures
            r.threshold() == DEFAULT_THRESHOLD_MS,
    {
        Self::new()
    }
}

impl CmdDurationModule {
    /// The threshold in milliseconds.
    pub closed spec fn threshold(&self) -> u64 {
        self.threshold_ms
    }

    /// Creates a new module with the default two-second threshold.
    pub fn new() -> (r: Self)
        ensures
            r.threshold() == DEFAULT_THRESHOLD_MS,
    {
        CmdDurationModule { threshold_ms: DEFAULT_THRESHOLD_MS }
    }

    /// Creates a new module with a custom threshold in milliseconds.
    pub fn with_threshold(threshold_ms: u64) -> (r: Self)
        ensures
            r.threshold() == threshold_ms,
    {
        CmdDurationModule { threshold_ms }
    }
}

impl crate::sealed::Sealed for CmdDurationModule {}

impl Module for CmdDurationModule {
    fn name(&self) -> (r: &'static str)
        ensures
            r@ == "cmd_duration"@,
    {
        "cmd_duration"
    }

    fn speed(&self) -> (r: ModuleSpeed)
        ensures
            r == ModuleSpeed::Fast,
    {
        ModuleSpeed::Fast
    }

    /// Nothing without a duration or below the threshold; otherwise the duration.
    fn render(&self, ctx: &RenderContext<'_>) -> (r: Option<ModuleOutput>)
        ensures
            r is Some <==> (ctx.duration_ms matches Some(ms) && ms >= self.threshold()),
            r matches Some(o) ==> o.content@ == duration_text(ctx.duration_ms->0 as nat),
    {
        let ms = match ctx.duration_ms {
            Some(ms) => ms,
            None => return None,
        };
        if ms < self.threshold_ms {
            return None;
        }
        Some(ModuleOutput { content: format_duration(ms) })
    }
}

} // verus!
