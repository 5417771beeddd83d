//! Compiling module definitions: built-in and user modules merged by name,
//! sources grouped by variable name, format strings parsed.
use vstd::prelude::*;

use super::format::{parse_format, parse_format_spec, segs_view};
use super::{ResolvedModule, ResolvedSource, ResolvedSourceGroup};
use crate::config::{ModuleDef, SourceDef, resolve_spec};
use crate::module::ModuleSpeed;
use crate::pattern::{regex_compile_error, regex_error};
use crate::render::style::{Color, Style};
use crate::text::str_eq;

verus! {

/// A source ready to be read, or `None` when the definition names none;
/// its regex is kept only when it compiles.
pub open spec fn compile_source_spec(d: SourceDef) -> Option<ResolvedSource> {
    let regex = if d.regex matches Some(p) && regex_compile_error(p.text()) is None {
        d.regex
    } else {
        None
    };
    match (d.env, d.file, d.command) {
        (Some(n), _, _) => Some(ResolvedSource::Env { name: n, regex }),
        (None, Some(f), _) => Some(ResolvedSource::File { path: f, regex }),
        (None, None, Some(args)) => if args@.len() == 0 {
            None
        } else {
            Some(ResolvedSource::Command { args, regex })
        },
        (None, None, None) => None,
    }
}

/// Compiles one source definition.
pub fn compile_source(def: SourceDef) -> (r: Option<ResolvedSource>)
    ensures
        r == compile_source_spec(def),
{
    let ghost d = def;
    let regex = match def.regex {
        Some(p) => if regex_error(p.as_str()).is_none() {
            Some(p)
        } else {
            None
        },
        None => None,
    };
    if let Some(env_name) = def.env {
        Some(ResolvedSource::Env { name: env_name, regex })
    } else if let Some(file_path) = def.file {
        Some(ResolvedSource::File { path: file_path, regex })
    } else if let Some(args) = def.command {
        if args.len() == 0 {
            None
        } else {
            Some(ResolvedSource::Command { args, regex })
        }
    } else {
        None
    }
}

/// The position of the group named `name`, or -1.
pub open spec fn find_group(gs: Seq<(Seq<char>, Seq<ResolvedSource>)>, name: Seq<char>) -> int
    decreases gs.len(),
{
    if gs.len() == 0 {
        -1
    } else if gs.last().0 == name && find_group(gs.drop_last(), name) < 0 {
        gs.len() - 1
    } else {
        find_group(gs.drop_last(), name)
    }
}

/// Adds a source to the group of its name, opening the group if needed.
pub open spec fn add_to_groups(
    gs: Seq<(Seq<char>, Seq<ResolvedSource>)>,
    name: Seq<char>,
    src: ResolvedSource,
) -> Seq<(Seq<char>, Seq<ResolvedSource>)> {
    let k = find_group(gs, name);
    if k >= 0 {
        gs.update(k, (gs[k].0, gs[k].1.push(src)))
    } else {
        gs.push((name, seq![src]))
    }
}

/// The fallback groups of the sources `defs`: one per variable name, in
/// order of first appearance, each holding its sources in declaration order.
pub open spec fn groups_from(defs: Seq<SourceDef>) -> Seq<(Seq<char>, Seq<ResolvedSource>)>
    decreases defs.len(),
{
    if defs.len() == 0 {
        Seq::empty()
    } else {
        let g = groups_from(defs.drop_last());
        match compile_source_spec(defs.last()) {
            Some(src) => add_to_groups(g, defs.last().name@, src),
            None => g,
        }
    }
}

/// The views of a list of groups.
pub open spec fn groups_view(gs: Seq<ResolvedSourceGroup>) -> Seq<(Seq<char>, Seq<ResolvedSource>)> {
    Seq::new(gs.len(), |i: int| (gs[i].name@, gs[i].sources@))
}

/// Whether source `d` compiles to a command.
pub open spec fn is_command_def(d: SourceDef) -> bool {
    compile_source_spec(d) matches Some(s) && s is Command
}

/// Whether some source of `defs` compiles to a command.
pub open spec fn has_command(defs: Seq<SourceDef>) -> bool {
    exists|k: int| 0 <= k < defs.len() && #[trigger] is_command_def(defs[k])
}

/// Bold bright black: the style of a module that sets none.
pub open spec fn module_base_style() -> Style {
    Style { fg: Some(Color::BrightBlack), bold: true, dimmed: false }
}

/// `m` is `def` compiled.
pub open spec fn compiled(def: ModuleDef, m: ResolvedModule) -> bool {
    &&& m.name == def.name
    &&& m.when == def.when
    &&& groups_view(m.source_groups@) == groups_from(def.source@)
    &&& segs_view(m.format_segments@) == parse_format_spec(def.format@)
    &&& m.icon == def.icon
    &&& m.style == resolve_spec(def.style, module_base_style())
    &&& m.connector == def.connector
    &&& m.speed == if has_command(def.source@) { ModuleSpeed::Slow } else { ModuleSpeed::Fast }
    &&& m.arbitration == def.arbitration
    &&& m.slot == def.slot
}

fn group_sources(defs: Vec<SourceDef>) -> (r: (Vec<ResolvedSourceGroup>, bool))
    ensures
        groups_view(r.0@) == groups_from(defs@),
        r.1 == has_command(defs@),
{
    let ghost all = defs@;
    let mut rest = defs;
    let mut groups: Vec<ResolvedSourceGroup> = Vec::new();
    let mut slow = false;
    let mut i: usize = 0;
    let n = rest.len();
    while i < n
        invariant
            i <= n,
            n == all.len(),
            rest@ == all.skip(i as int),
            groups_view(groups@) == groups_from(all.take(i as int)),
            slow == has_command(all.take(i as int)),
        decreases n - i,
    {
        let d = rest.remove(0);
        assert(d == all[i as int]);
        assert(all.take(i + 1).drop_last() =~= all.take(i as int));
        assert(all.take(i + 1).last() == d);
        let ghost name = d.name@;
        let ghost prev = groups_view(groups@);
        let name_s = d.name.as_str().to_owned();
        let compiled_src = compile_source(d);
        match compiled_src {
            Some(src) => {
                if !src.is_fast() {
                    slow = true;
                }
                let mut k: usize = 0;
                let mut found = false;
                while k < groups.len() && !found
                    invariant
                        k <= groups.len(),
                        groups_view(groups@) == prev,
                        name_s@ == name,
                        !found ==> find_group(prev.take(k as int), name) < 0,
                        found ==> k < groups.len() && find_group(prev, name) == k,
                    decreases groups.len() - k + if found { 0int } else { 1int },
                {
                    assert(prev.take(k + 1).drop_last() =~= prev.take(k as int));
                    assert(prev[k as int] == (groups@[k as int].name@, groups@[k as int].sources@));
                    assert(prev.take(k + 1).last() == prev[k as int]);
                    if str_eq(groups[k].name.as_str(), name_s.as_str()) {
                        found = true;
                        proof {
                            lemma_find_group_extend(prev, name, k as int);
                        }
                    } else {
                        k = k + 1;
                    }
                }
                if found {
                    let ghost before = groups@;
                    let mut g = groups.remove(k);
                    assert(prev[k as int] == (g.name@, g.sources@));
                    let ghost old_sources = g.sources@;
                    g.sources.push(src);
                    groups.insert(k, g);
                    assert(groups@ =~= before.update(k as int, g));
                    assert(groups_view(groups@) =~= prev.update(
                        k as int,
                        (prev[k as int].0, old_sources.push(src)),
                    ));
                } else {
                    assert(prev.take(groups.len() as int) =~= prev);
                    let ghost before = groups@;
                    let v = vec![src];
                    assert(v@ =~= seq![src]);
                    groups.push(ResolvedSourceGroup { name: name_s, sources: v });
                    assert(groups_view(groups@) =~= prev.push((name, seq![src])));
                }
                assert(groups_view(groups@) =~= add_to_groups(prev, name, src));
            },
            None => {},
        }
        proof {
            assert forall|k: int| 0 <= k < all.take(i + 1).len() implies (#[trigger] all.take(i + 1)[k])
                == all.take(i as int).push(all[i as int])[k] by {}
            assert(all.take(i + 1) =~= all.take(i as int).push(all[i as int]));
            lemma_has_command_push(all.take(i as int), all[i as int]);
        }
        assert(rest@ =~= all.skip(i + 1));
        i = i + 1;
    }
    assert(all.take(n as int) =~= all);
    (groups, slow)
}

proof fn lemma_find_group_extend(gs: Seq<(Seq<char>, Seq<ResolvedSource>)>, name: Seq<char>, k: int)
    requires
        0 <= k < gs.len(),
        gs[k].0 == name,
        find_group(gs.take(k), name) < 0,
    ensures
        find_group(gs, name) == k,
    decreases gs.len(),
{
    if k < gs.len() - 1 {
        assert(gs.drop_last().take(k) =~= gs.take(k));
        lemma_find_group_extend(gs.drop_last(), name, k);
    } else {
        assert(gs.drop_last() =~= gs.take(k));
    }
}

proof fn lemma_has_command_push(defs: Seq<SourceDef>, d: SourceDef)
    ensures
        has_command(defs.push(d)) == (has_command(defs) || is_command_def(d)),
{
    let e = defs.push(d);
    if has_command(defs) {
        let k = choose|k: int| 0 <= k < defs.len() && #[trigger] is_command_def(defs[k]);
        assert(e[k] == defs[k]);
    }
    if has_command(e) {
        let k = choose|k: int| 0 <= k < e.len() && #[trigger] is_command_def(e[k]);
        if k < defs.len() {
            assert(e[k] == defs[k]);
        }
    }
    if is_command_def(d) {
        assert(e[defs.len() as int] == d);
    }
}

/// Compiles a module definition.
pub fn compile_module_def(def: ModuleDef) -> (r: ResolvedModule)
    ensures
        compiled(def, r),
{
    let format_segments = parse_format(def.format.as_str());
    let (source_groups, slow) = group_sources(def.source);
    let speed = if slow {
        ModuleSpeed::Slow
    } else {
        ModuleSpeed::Fast
    };
    let style = def.style.resolve(Style::new().fg(Color::BrightBlack).bold());
    ResolvedModule {
        name: def.name,
        when: def.when,
        source_groups,
        format_segments,
        icon: def.icon,
        style,
        connector: def.connector,
        speed,
        arbitration: def.arbitration,
        slot: def.slot,
    }
}

/// The position of the definition named `name`, or -1 (the first one).
pub open spec fn find_def(defs: Seq<ModuleDef>, name: Seq<char>) -> int
    decreases defs.len(),
{
    if defs.len() == 0 {
        -1
    } else if defs.last().name@ == name && find_def(defs.drop_last(), name) < 0 {
        defs.len() - 1
    } else {
        find_def(defs.drop_last(), name)
    }
}

/// The definitions after applying user modules in order: a user module
/// replaces the definition of the same name, or else is appended.
pub open spec fn merge_defs(base: Seq<ModuleDef>, users: Seq<ModuleDef>) -> Seq<ModuleDef>
    decreases users.len(),
{
    if users.len() == 0 {
        base
    } else {
        let m = merge_defs(base, users.drop_last());
        let u = users.last();
        let k = find_def(m, u.name@);
        if k >= 0 {
            m.update(k, u)
        } else {
            m.push(u)
        }
    }
}

proof fn lemma_find_def_extend(defs: Seq<ModuleDef>, name: Seq<char>, k: int)
    requires
        0 <= k < defs.len(),
        defs[k].name@ == name,
        find_def(defs.take(k), name) < 0,
    ensures
        find_def(defs, name) == k,
    decreases defs.len(),
{
    if k < defs.len() - 1 {
        assert(defs.drop_last().take(k) =~= defs.take(k));
        lemma_find_def_extend(defs.drop_last(), name, k);
    } else {
        assert(defs.drop_last() =~= defs.take(k));
    }
}

proof fn lemma_find_def_none(defs: Seq<ModuleDef>, name: Seq<char>)
    requires
        forall|j: int| 0 <= j < defs.len() ==> (#[trigger] defs[j]).name@ != name,
    ensures
        find_def(defs, name) < 0,
    decreases defs.len(),
{
    if defs.len() > 0 {
        lemma_find_def_none(defs.drop_last(), name);
    }
}

/// Compiles the user's `[[module]]` entries, in order.
///
/// A module whose name matches an earlier entry replaces it in place; the
/// built-in toolchain definitions are not added (they are offered as
/// presets).
pub fn resolve_modules(user_modules: Vec<ModuleDef>) -> (r: Vec<ResolvedModule>)
    ensures
        r@.len() == merge_defs(Seq::empty(), user_modules@).len(),
        forall|i: int|
            0 <= i < r@.len() ==> #[trigger] compiled(merge_defs(Seq::empty(), user_modules@)[i], r@[i]),
{
    let mut defs: Vec<ModuleDef> = Vec::new();
    let ghost base = defs@;
    assert(base =~= Seq::<ModuleDef>::empty());
    let ghost users = user_modules@;
    let mut rest = user_modules;
    let n = rest.len();
    let mut j: usize = 0;
    while j < n
        invariant
            j <= n,
            n == users.len(),
            rest@ == users.skip(j as int),
            defs@ == merge_defs(base, users.take(j as int)),
        decreases n - j,
    {
        let u = rest.remove(0);
        assert(u == users[j as int]);
        assert(users.take(j + 1).drop_last() =~= users.take(j as int));
        assert(users.take(j + 1).last() == u);
        let ghost m = defs@;
        let mut k: usize = 0;
        let mut found = false;
        while k < defs.len() && !found
            invariant
                k <= defs.len(),
                defs@ == m,
                !found ==> forall|q: int| 0 <= q < k ==> (#[trigger] m[q]).name@ != u.name@,
                found ==> k < defs.len() && find_def(m, u.name@) == k,
            decreases defs.len() - k + if found { 0int } else { 1int },
        {
            if str_eq(defs[k].name.as_str(), u.name.as_str()) {
                found = true;
                proof {
                    assert forall|q: int| 0 <= q < m.take(k as int).len() implies (#[trigger] m.take(
                        k as int,
                    )[q]).name@ != u.name@ by {
                        assert(m.take(k as int)[q] == m[q]);
                    }
                    lemma_find_def_none(m.take(k as int), u.name@);
                    lemma_find_def_extend(m, u.name@, k as int);
                }
            } else {
                k = k + 1;
            }
        }
        if found {
            defs.set(k, u);
        } else {
            proof {
                lemma_find_def_none(m, u.name@);
            }
            defs.push(u);
        }
        assert(rest@ =~= users.skip(j + 1));
        j = j + 1;
    }
    assert(users.take(n as int) =~= users);
    let ghost merged = defs@;
    let mut out: Vec<ResolvedModule> = Vec::new();
    let total = defs.len();
    let mut i: usize = 0;
    while i < total
        invariant
            i <= total,
            total == merged.len(),
            defs@ == merged.skip(i as int),
            out@.len() == i,
            forall|q: int| 0 <= q < i ==> #[trigger] compiled(merged[q], out@[q]),
        decreases total - i,
    {
        let d = defs.remove(0);
        assert(d == merged[i as int]);
        out.push(compile_module_def(d));
        assert(defs@ =~= merged.skip(i + 1));
        i = i + 1;
    }
    out
}

proof fn lemma_find_def_found(defs: Seq<ModuleDef>, name: Seq<char>)
    ensures
        find_def(defs, name) < defs.len(),
        find_def(defs, name) >= 0 ==> defs[find_def(defs, name)].name@ == name,
    decreases defs.len(),
{
    if defs.len() > 0 {
        lemma_find_def_found(defs.drop_last(), name);
    }
}

proof fn lemma_merge_step(base: Seq<ModuleDef>, users: Seq<ModuleDef>)
    requires
        users.len() > 0,
    ensures
        merge_defs(base, users.drop_last()).len() <= merge_defs(base, users).len(),
        forall|i: int|
            0 <= i < merge_defs(base, users.drop_last()).len() && #[trigger] merge_defs(base, users)[i]
                != merge_defs(base, users.drop_last())[i] ==> merge_defs(base, users)[i] == users.last()
                && merge_defs(base, users.drop_last())[i].name@ == users.last().name@,
        exists|i: int|
            0 <= i < merge_defs(base, users).len() && #[trigger] merge_defs(base, users)[i] == users.last(),
{
    let m = merge_defs(base, users.drop_last());
    lemma_find_def_found(m, users.last().name@);
    let k = find_def(m, users.last().name@);
    if k >= 0 {
        assert(merge_defs(base, users)[k] == users.last());
    } else {
        assert(merge_defs(base, users)[m.len() as int] == users.last());
    }
}

/// Modules with distinct names are resolved one for one, in order.
pub proof fn lemma_distinct_modules_in_order(users: Seq<ModuleDef>)
    requires
        forall|a: int, b: int| 0 <= a < b < users.len() ==> users[a].name@ != users[b].name@,
    ensures
        merge_defs(Seq::empty(), users) == users,
    decreases users.len(),
{
    if users.len() > 0 {
        let prev = users.drop_last();
        assert forall|a: int, b: int| 0 <= a < b < prev.len() implies prev[a].name@ != prev[b].name@ by {
            assert(prev[a] == users[a]);
            assert(prev[b] == users[b]);
        }
        lemma_distinct_modules_in_order(prev);
        assert forall|j: int| 0 <= j < prev.len() implies (#[trigger] prev[j]).name@ != users.last().name@ by {
            assert(prev[j] == users[j]);
        }
        lemma_find_def_none(prev, users.last().name@);
        assert(prev.push(users.last()) =~= users);
    }
}

/// The last user module of each name is among the merged definitions: a
/// module overrides the earlier definitions of its name.
pub proof fn lemma_last_user_wins(base: Seq<ModuleDef>, users: Seq<ModuleDef>, j: int)
    requires
        0 <= j < users.len(),
        forall|q: int| j < q < users.len() ==> (#[trigger] users[q]).name@ != users[j].name@,
    ensures
        exists|i: int|
            0 <= i < merge_defs(base, users).len() && #[trigger] merge_defs(base, users)[i] == users[j],
    decreases users.len(),
{
    lemma_merge_step(base, users);
    if j < users.len() - 1 {
        let prev = users.drop_last();
        assert forall|q: int| j < q < prev.len() implies (#[trigger] prev[q]).name@ != prev[j].name@ by {
            assert(prev[q] == users[q]);
        }
        assert(prev[j] == users[j]);
        lemma_last_user_wins(base, prev, j);
        let i = choose|i: int| 0 <= i < merge_defs(base, prev).len() && #[trigger] merge_defs(base, prev)[i] == prev[j];
        assert(users.last() == users[users.len() - 1]);
        assert(merge_defs(base, users)[i] == users[j]);
    } else {
        assert(users.last() == users[j]);
    }
}

} // verus!
