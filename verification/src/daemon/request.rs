//! Decisions of the request handler: which requests are served, which module
//! detections run inline, what slow results are cached under, and when an
//! asynchronous update follows the first answer.
use vstd::prelude::*;

use super::CacheKey;
use super::prompt::{compose_prompt, line1_parts, line2_parts, FastOutputs, SlowOutput};
use super::session::{active_sessions, fresh, session_of, SessionMap};
use super::stats::{bump, counter_add, DaemonStats};
use crate::config::{Arbitration, Config};
use crate::module::custom::builtins::strs;
use crate::module::custom::{
    add_all_unique, all_sources, check_when, module_env_refs, module_runs_command, module_source_file_refs,
    module_trigger_refs, when_holds,
    CustomModuleInfo, DetectedModuleCandidate, ModuleDependencyInputs, ResolvedModule, ResolvedSource,
    ResolvedSourceGroup,
};
use crate::module::ModuleSpeed;
use crate::render::{compose_line_spec, PromptLines};
use crate::module::custom::format::lookup;
use crate::module::custom::find_env_value;
use crate::text::{push_str_chars, str_eq};

verus! {

/// How long a shell session is remembered without requests: 30 minutes.
pub const SESSION_TTL_MS: u64 = 1_800_000;

/// Admits a request of session `session_id` with `generation` at `now`.
///
/// The sessions idle for longer than [`SESSION_TTL_MS`] are forgotten first.
/// The request is accepted when its generation is fresh for its session,
/// and then recorded as the session's last; a stale request is refused and
/// leaves its session as it was. Other sessions are only pruned. The
/// counters of requests, pruned sessions and stale refusals advance.
pub fn admit_request(
    sessions: &mut SessionMap,
    stats: &mut DaemonStats,
    session_id: u64,
    generation: u64,
    now: u64,
) -> (r: bool)
    requires
        old(sessions).wf(),
    ensures
        final(sessions).wf(),
        r == fresh(session_of(active_sessions(old(sessions).entries(), now, SESSION_TTL_MS), session_id), generation),
        r ==> session_of(final(sessions).entries(), session_id) == Some(
            super::session::Session { last_generation: Some(generation), last_seen: now },
        ),
        !r ==> session_of(final(sessions).entries(), session_id) == session_of(
            active_sessions(old(sessions).entries(), now, SESSION_TTL_MS),
            session_id,
        ),
        forall|o: u64|
            o != session_id ==> session_of(final(sessions).entries(), o) == session_of(
                active_sessions(old(sessions).entries(), now, SESSION_TTL_MS),
                o,
            ),
        *final(stats) == (DaemonStats {
            requests_total: counter_add(old(stats).requests_total, 1),
            sessions_pruned: counter_add(
                old(stats).sessions_pruned,
                (old(sessions).entries().len() - active_sessions(
                    old(sessions).entries(),
                    now,
                    SESSION_TTL_MS,
                ).len()) as u64,
            ),
            stale_discards: if r {
                old(stats).stale_discards
            } else {
                counter_add(old(stats).stale_discards, 1)
            },
            ..*old(stats)
        }),
{
    stats.requests_total = bump(stats.requests_total, 1);
    let pruned = sessions.prune_stale(SESSION_TTL_MS, now);
    stats.sessions_pruned = bump(stats.sessions_pruned, pruned as u64);
    let accepted = sessions.check_generation(session_id, generation, now);
    if !accepted {
        stats.stale_discards = bump(stats.stale_discards, 1);
    }
    accepted
}

/// Whether every source reads an environment variable.
pub open spec fn all_env(srcs: Seq<ResolvedSource>) -> bool {
    forall|k: int| 0 <= k < srcs.len() ==> #[trigger] srcs[k] is Env
}

/// Whether a module is detected without handing work to a blocking task:
/// a fast module all of whose sources read environment variables.
pub open spec fn inline_detection(speed: ModuleSpeed, m: ResolvedModule) -> bool {
    speed == ModuleSpeed::Fast && all_env(all_sources(m.source_groups@))
}

proof fn lemma_source_in_all(gs: Seq<ResolvedSourceGroup>, g: int, s: int) -> (k: int)
    requires
        0 <= g < gs.len(),
        0 <= s < gs[g].sources@.len(),
    ensures
        0 <= k < all_sources(gs).len(),
        all_sources(gs)[k] == gs[g].sources@[s],
    decreases gs.len(),
{
    let prev = all_sources(gs.drop_last());
    if g == gs.len() - 1 {
        prev.len() + s
    } else {
        assert(gs.drop_last()[g] == gs[g]);
        lemma_source_in_all(gs.drop_last(), g, s)
    }
}

/// Whether `module` is detected inline for a request of the given speed.
pub fn should_detect_inline(speed: ModuleSpeed, module: &ResolvedModule) -> (r: bool)
    ensures
        r == inline_detection(speed, *module),
{
    if speed != ModuleSpeed::Fast {
        return false;
    }
    let ghost gs = module.source_groups@;
    let mut g: usize = 0;
    while g < module.source_groups.len()
        invariant
            g <= module.source_groups.len(),
            gs == module.source_groups@,
            all_env(all_sources(gs.take(g as int))),
        decreases module.source_groups.len() - g,
    {
        let group = &module.source_groups[g];
        let mut s: usize = 0;
        while s < group.sources.len()
            invariant
                s <= group.sources.len(),
                g < gs.len(),
                gs == module.source_groups@,
                group.sources@ == gs[g as int].sources@,
                forall|k: int| 0 <= k < s ==> #[trigger] group.sources@[k] is Env,
            decreases group.sources.len() - s,
        {
            match &group.sources[s] {
                ResolvedSource::Env { .. } => {},
                _ => {
                    proof {
                        let k = lemma_source_in_all(gs, g as int, s as int);
                        assert(!(all_sources(gs)[k] is Env));
                    }
                    return false;
                },
            }
            s = s + 1;
        }
        proof {
            let a = all_sources(gs.take(g as int));
            let b = gs[g as int].sources@;
            assert(gs.take(g + 1).drop_last() =~= gs.take(g as int));
            assert(gs.take(g + 1).last() == gs[g as int]);
            assert(all_sources(gs.take(g + 1)) == a + b);
            assert forall|k: int| 0 <= k < (a + b).len() implies #[trigger] (a + b)[k] is Env by {
                if k >= a.len() {
                    assert((a + b)[k] == b[k - a.len()]);
                } else {
                    assert((a + b)[k] == a[k]);
                }
            }
        }
        g = g + 1;
    }
    assert(gs.take(gs.len() as int) =~= gs);
    true
}

/// The arbitration rule as plain values.
pub open spec fn arb_view(a: Option<Arbitration>) -> Option<(Seq<char>, u32)> {
    match a {
        Some(x) => Some((x.group@, x.priority)),
        None => None,
    }
}

/// A candidate as plain values.
pub open spec fn candidate_view(c: DetectedModuleCandidate) -> (Option<(Seq<char>, u32)>, CustomModuleInfo) {
    (arb_view(c.arbitration), c.info)
}

/// The candidates of the matched modules, in match order: each matched module
/// (at `matching[k]` among `defs`) whose detection gave a value (`slots[k]`),
/// with the module's arbitration.
pub open spec fn candidates_spec(
    defs: Seq<ResolvedModule>,
    matching: Seq<usize>,
    slots: Seq<Option<CustomModuleInfo>>,
) -> Seq<(Option<(Seq<char>, u32)>, CustomModuleInfo)>
    decreases slots.len(),
{
    if slots.len() == 0 || matching.len() == 0 {
        Seq::empty()
    } else {
        let prev = candidates_spec(defs, matching.drop_last(), slots.drop_last());
        match slots.last() {
            Some(info) => prev.push((arb_view(defs[matching.last() as int].arbitration), info)),
            None => prev,
        }
    }
}

fn copy_arbitration(a: &Option<Arbitration>) -> (r: Option<Arbitration>)
    ensures
        arb_view(r) == arb_view(*a),
{
    match a {
        Some(x) => Some(Arbitration { group: x.group.as_str().to_owned(), priority: x.priority }),
        None => None,
    }
}

/// Pairs the detected values of the matched modules with their arbitration,
/// dropping the modules that gave no value.
pub fn candidates_from_slots(
    defs: &[ResolvedModule],
    matching: &[usize],
    slots: Vec<Option<CustomModuleInfo>>,
) -> (r: Vec<DetectedModuleCandidate>)
    requires
        matching@.len() == slots@.len(),
        forall|k: int| 0 <= k < matching@.len() ==> (#[trigger] matching@[k]) < defs@.len(),
    ensures
        Seq::new(r@.len(), |i: int| candidate_view(r@[i])) == candidates_spec(defs@, matching@, slots@),
{
    let ghost all = slots@;
    let mut rest = slots;
    let mut out: Vec<DetectedModuleCandidate> = Vec::new();
    let n = matching.len();
    let mut k: usize = 0;
    while k < n
        invariant
            k <= n,
            n == matching@.len(),
            n == all.len(),
            rest@ == all.skip(k as int),
            forall|q: int| 0 <= q < matching@.len() ==> (#[trigger] matching@[q]) < defs@.len(),
            Seq::new(out@.len(), |i: int| candidate_view(out@[i])) == candidates_spec(
                defs@,
                matching@.take(k as int),
                all.take(k as int),
            ),
        decreases n - k,
    {
        let slot = rest.remove(0);
        assert(slot == all[k as int]);
        assert(matching@.take(k + 1).drop_last() =~= matching@.take(k as int));
        assert(all.take(k + 1).drop_last() =~= all.take(k as int));
        assert(matching@.take(k + 1).last() == matching@[k as int]);
        assert(all.take(k + 1).last() == all[k as int]);
        let ghost before = Seq::new(out@.len(), |i: int| candidate_view(out@[i]));
        match slot {
            Some(info) => {
                let arbitration = copy_arbitration(&defs[matching[k]].arbitration);
                out.push(DetectedModuleCandidate { arbitration, info });
                assert(Seq::new(out@.len(), |i: int| candidate_view(out@[i])) =~= before.push(
                    candidate_view(out@.last()),
                ));
            },
            None => {},
        }
        k = k + 1;
    }
    assert(matching@.take(n as int) =~= matching@);
    assert(all.take(n as int) =~= all);
    out
}

/// The inputs that the matched modules of the given speed read: their
/// environment variables, marker files and source files (each once, in order
/// of first use), and whether one of them runs a command.
pub open spec fn dependency_inputs_spec(
    defs: Seq<ResolvedModule>,
    speed: ModuleSpeed,
    env_vars: Seq<(String, String)>,
    files: Seq<String>,
) -> (Seq<Seq<char>>, Seq<Seq<char>>, Seq<Seq<char>>, bool)
    decreases defs.len(),
{
    if defs.len() == 0 {
        (Seq::empty(), Seq::empty(), Seq::empty(), false)
    } else {
        let prev = dependency_inputs_spec(defs.drop_last(), speed, env_vars, files);
        let m = defs.last();
        if m.speed == speed && when_holds(m.when, env_vars, files) {
            (
                add_all_unique(prev.0, module_env_refs(m)),
                add_all_unique(prev.1, module_trigger_refs(m)),
                add_all_unique(prev.2, module_source_file_refs(m)),
                prev.3 || module_runs_command(m),
            )
        } else {
            prev
        }
    }
}

/// The inputs as plain values.
pub open spec fn inputs_view(r: ModuleDependencyInputs) -> (Seq<Seq<char>>, Seq<Seq<char>>, Seq<Seq<char>>, bool) {
    (strs(r.env_vars@), strs(r.trigger_files@), strs(r.source_files@), r.uses_command_path)
}

/// Collects what the matched modules of the given speed read: environment
/// variables, marker files and source files, each once, and whether one of
/// them runs a command.
pub fn matching_dependency_inputs(
    defs: &[ResolvedModule],
    speed: ModuleSpeed,
    env_vars: &[(String, String)],
    files: &[String],
) -> (r: ModuleDependencyInputs)
    ensures
        inputs_view(r) == dependency_inputs_spec(defs@, speed, env_vars@, files@),
{
    let mut inputs = ModuleDependencyInputs {
        env_vars: Vec::new(),
        trigger_files: Vec::new(),
        source_files: Vec::new(),
        uses_command_path: false,
    };
    assert(inputs_view(inputs) =~= dependency_inputs_spec(defs@.take(0), speed, env_vars@, files@));
    let mut i: usize = 0;
    while i < defs.len()
        invariant
            i <= defs.len(),
            inputs_view(inputs) == dependency_inputs_spec(defs@.take(i as int), speed, env_vars@, files@),
        decreases defs.len() - i,
    {
        assert(defs@.take(i + 1).drop_last() =~= defs@.take(i as int));
        assert(defs@.take(i + 1).last() == defs@[i as int]);
        if defs[i].speed == speed && check_when(&defs[i].when, env_vars, files) {
            inputs.add_module(&defs[i]);
        }
        i = i + 1;
    }
    assert(defs@.take(defs.len() as int) =~= defs@);
    inputs
}

/// The FNV-1a offset basis (64-bit).
pub const FNV_OFFSET: u64 = 0xcbf2_9ce4_8422_2325;

/// The FNV-1a prime (64-bit).
pub const FNV_PRIME: u64 = 0x0000_0100_0000_01b3;

/// One FNV-1a step over a character's code point.
pub open spec fn fnv_step(h: u64, c: char) -> u64 {
    vstd::wrapping::u64_specs::wrapping_mul(h ^ ((c as u32) as u64), FNV_PRIME)
}

/// The FNV-1a hash of the code points of `s`.
pub open spec fn fnv_hash(s: Seq<char>) -> u64
    decreases s.len(),
{
    if s.len() == 0 {
        FNV_OFFSET
    } else {
        fnv_step(fnv_hash(s.drop_last()), s.last())
    }
}

/// Hashes the code points of `s` with FNV-1a.
pub fn hash_chars(s: &Vec<char>) -> (r: u64)
    ensures
        r == fnv_hash(s@),
{
    let mut h: u64 = FNV_OFFSET;
    let mut i: usize = 0;
    while i < s.len()
        invariant
            i <= s.len(),
            h == fnv_hash(s@.take(i as int)),
        decreases s.len() - i,
    {
        assert(s@.take(i + 1).drop_last() =~= s@.take(i as int));
        assert(s@.take(i + 1).last() == s@[i as int]);
        h = (h ^ (s[i] as u32 as u64)).wrapping_mul(FNV_PRIME);
        i = i + 1;
    }
    assert(s@.take(i as int) =~= s@);
    h
}

/// 2^64, the modulus of the wrapping sum of entry hashes.
pub open spec fn hash_modulus() -> int {
    0x1_0000_0000_0000_0000
}

/// The text of one dependency: a tag, a name, and the value found for it
/// (or a mark that there is none).
pub open spec fn keyed_entry(tag: char, name: Seq<char>, value: Option<Seq<char>>) -> Seq<char> {
    seq![tag] + name + seq!['\0'] + match value {
        Some(v) => seq!['\u{1}'] + v,
        None => seq!['\u{2}'],
    }
}

/// The entry of environment variable `name`: its value in the request.
pub open spec fn env_entry(name: Seq<char>, env_vars: Seq<(String, String)>) -> Seq<char> {
    keyed_entry('e', name, lookup(env_vars, name))
}

/// The entry of marker file `name`: whether it exists.
pub open spec fn trigger_entry(name: Seq<char>, present: Seq<Seq<char>>) -> Seq<char> {
    keyed_entry('t', name, if present.contains(name) { Some(Seq::empty()) } else { None })
}

/// The entry of source file `name`: its content, when it could be read.
pub open spec fn source_entry(name: Seq<char>, contents: Seq<(String, String)>) -> Seq<char> {
    keyed_entry('s', name, lookup(contents, name))
}

/// The entry of the `PATH` that commands run under.
pub open spec fn path_entry(path: Option<Seq<char>>) -> Seq<char> {
    keyed_entry('p', Seq::empty(), path)
}

/// The sum of the hashes of the entries of `names`.
pub open spec fn hash_sum(names: Seq<Seq<char>>, entry: spec_fn(Seq<char>) -> Seq<char>) -> int
    decreases names.len(),
{
    if names.len() == 0 {
        0
    } else {
        hash_sum(names.drop_last(), entry) + fnv_hash(entry(names.last())) as int
    }
}

/// The sum of the hashes of every dependency's entry: each environment
/// variable with its value, each marker file with whether it exists, each
/// source file with its content, and (when a command runs) the `PATH`.
pub open spec fn dependency_sum(
    inputs: ModuleDependencyInputs,
    env_vars: Seq<(String, String)>,
    present_triggers: Seq<String>,
    source_contents: Seq<(String, String)>,
    command_path: Option<Seq<char>>,
) -> int {
    hash_sum(strs(inputs.env_vars@), |n: Seq<char>| env_entry(n, env_vars)) + hash_sum(
        strs(inputs.trigger_files@),
        |n: Seq<char>| trigger_entry(n, strs(present_triggers)),
    ) + hash_sum(strs(inputs.source_files@), |n: Seq<char>| source_entry(n, source_contents)) + if inputs.uses_command_path {
        fnv_hash(path_entry(command_path)) as int
    } else {
        0
    }
}

/// The dependency hash: the wrapping sum of the entries' FNV-1a hashes. A
/// sum does not depend on the order in which the entries are listed.
pub open spec fn dependency_hash_spec(
    inputs: ModuleDependencyInputs,
    env_vars: Seq<(String, String)>,
    present_triggers: Seq<String>,
    source_contents: Seq<(String, String)>,
    command_path: Option<Seq<char>>,
) -> u64 {
    (dependency_sum(inputs, env_vars, present_triggers, source_contents, command_path) % hash_modulus()) as u64
}

proof fn lemma_wrapping_sum(t: int, h: u64)
    requires
        t >= 0,
    ensures
        vstd::wrapping::u64_specs::wrapping_add((t % hash_modulus()) as u64, h) == ((t + h) % hash_modulus()) as u64,
{
    let m = hash_modulus();
    vstd::arithmetic::div_mod::lemma_add_mod_noop(t, h as int, m);
    vstd::arithmetic::div_mod::lemma_small_mod(h as nat, m as nat);
    let a = t % m;
    assert(0 <= a < m) by {
        vstd::arithmetic::div_mod::lemma_mod_bound(t, m);
    }
    if a + h >= m {
        vstd::arithmetic::div_mod::lemma_mod_sub_multiples_vanish(a + h - m, m);
        vstd::arithmetic::div_mod::lemma_small_mod((a + h - m) as nat, m as nat);
    } else {
        vstd::arithmetic::div_mod::lemma_small_mod((a + h) as nat, m as nat);
    }
}

proof fn lemma_hash_sum_nonneg(names: Seq<Seq<char>>, f: spec_fn(Seq<char>) -> Seq<char>)
    ensures
        hash_sum(names, f) >= 0,
    decreases names.len(),
{
    if names.len() > 0 {
        lemma_hash_sum_nonneg(names.drop_last(), f);
    }
}

proof fn lemma_hash_sum_remove(s: Seq<Seq<char>>, j: int, f: spec_fn(Seq<char>) -> Seq<char>)
    requires
        0 <= j < s.len(),
    ensures
        hash_sum(s, f) == hash_sum(s.remove(j), f) + fnv_hash(f(s[j])) as int,
    decreases s.len(),
{
    if j == s.len() - 1 {
        assert(s.remove(j) =~= s.drop_last());
    } else {
        lemma_hash_sum_remove(s.drop_last(), j, f);
        assert(s.remove(j).drop_last() =~= s.drop_last().remove(j));
        assert(s.remove(j).last() == s.last());
        assert(s.drop_last()[j] == s[j]);
    }
}

/// Sums of entry hashes do not depend on the order of the names: two lists
/// holding the same names, each as often, give the same sum.
pub proof fn lemma_hash_sum_order_free(s1: Seq<Seq<char>>, s2: Seq<Seq<char>>, f: spec_fn(Seq<char>) -> Seq<char>)
    requires
        s1.to_multiset() == s2.to_multiset(),
    ensures
        hash_sum(s1, f) == hash_sum(s2, f),
    decreases s1.len(),
{
    broadcast use vstd::seq_lib::group_to_multiset_ensures;
    broadcast use vstd::multiset::group_multiset_axioms;

    if s1.len() == 0 {
        assert(s1.to_multiset().len() == 0);
        assert(s2.to_multiset().len() == s2.len());
        assert(s2.len() == 0);
    } else {
        let x = s1.last();
        let d = s1.drop_last();
        assert(d.push(x) =~= s1);
        assert(s2.to_multiset().count(x) > 0);
        assert(s2.contains(x));
        let j = choose|j: int| 0 <= j < s2.len() && s2[j] == x;
        assert(s2.remove(j).to_multiset() =~= d.to_multiset());
        lemma_hash_sum_order_free(d, s2.remove(j), f);
        lemma_hash_sum_remove(s2, j, f);
    }
}

/// The dependency hash does not depend on the order of the listed
/// variables and files: lists holding the same names give the same hash.
pub proof fn lemma_dependency_hash_order_free(
    a: ModuleDependencyInputs,
    b: ModuleDependencyInputs,
    env_vars: Seq<(String, String)>,
    present_triggers: Seq<String>,
    source_contents: Seq<(String, String)>,
    command_path: Option<Seq<char>>,
)
    requires
        strs(a.env_vars@).to_multiset() == strs(b.env_vars@).to_multiset(),
        strs(a.trigger_files@).to_multiset() == strs(b.trigger_files@).to_multiset(),
        strs(a.source_files@).to_multiset() == strs(b.source_files@).to_multiset(),
        a.uses_command_path == b.uses_command_path,
    ensures
        dependency_hash_spec(a, env_vars, present_triggers, source_contents, command_path) == dependency_hash_spec(
            b,
            env_vars,
            present_triggers,
            source_contents,
            command_path,
        ),
{
    lemma_hash_sum_order_free(strs(a.env_vars@), strs(b.env_vars@), |n: Seq<char>| env_entry(n, env_vars));
    lemma_hash_sum_order_free(
        strs(a.trigger_files@),
        strs(b.trigger_files@),
        |n: Seq<char>| trigger_entry(n, strs(present_triggers)),
    );
    lemma_hash_sum_order_free(
        strs(a.source_files@),
        strs(b.source_files@),
        |n: Seq<char>| source_entry(n, source_contents),
    );
}

fn keyed_entry_text(tag: char, name: &str, value: Option<&str>) -> (r: Vec<char>)
    ensures
        r@ == keyed_entry(tag, name@, match value {
            Some(v) => Some(v@),
            None => None,
        }),
{
    let mut text: Vec<char> = Vec::new();
    text.push(tag);
    push_str_chars(&mut text, name);
    text.push('\0');
    match value {
        Some(v) => {
            text.push('\u{1}');
            push_str_chars(&mut text, v);
        },
        None => {
            text.push('\u{2}');
        },
    }
    proof {
        let tail = match value {
            Some(v) => seq!['\u{1}'] + v@,
            None => seq!['\u{2}'],
        };
        assert(text@ =~= seq![tag] + name@ + seq!['\0'] + tail);
    }
    text
}

fn contains_str(list: &[String], s: &str) -> (r: bool)
    ensures
        r == strs(list@).contains(s@),
{
    let mut i: usize = 0;
    while i < list.len()
        invariant
            i <= list.len(),
            forall|k: int| 0 <= k < i ==> (#[trigger] list@[k])@ != s@,
        decreases list.len() - i,
    {
        if str_eq(list[i].as_str(), s) {
            assert(strs(list@)[i as int] == s@);
            return true;
        }
        i = i + 1;
    }
    proof {
        if strs(list@).contains(s@) {
            let k = choose|k: int| 0 <= k < strs(list@).len() && strs(list@)[k] == s@;
            assert(list@[k]@ == s@);
        }
    }
    false
}

/// The hash of what the slow modules read: `env_vars` are the request's
/// variables, `present_triggers` the marker files that exist,
/// `source_contents` the source files that could be read with their
/// content, and `command_path` the `PATH` that commands run under.
pub fn dependency_hash(
    inputs: &ModuleDependencyInputs,
    env_vars: &[(String, String)],
    present_triggers: &[String],
    source_contents: &[(String, String)],
    command_path: Option<&str>,
) -> (r: u64)
    ensures
        r == dependency_hash_spec(*inputs, env_vars@, present_triggers@, source_contents@, match command_path {
            Some(p) => Some(p@),
            None => None,
        }),
{
    let ghost fe = |n: Seq<char>| env_entry(n, env_vars@);
    let ghost ft = |n: Seq<char>| trigger_entry(n, strs(present_triggers@));
    let ghost fs = |n: Seq<char>| source_entry(n, source_contents@);
    let ghost envs = strs(inputs.env_vars@);
    let ghost triggers = strs(inputs.trigger_files@);
    let ghost sources = strs(inputs.source_files@);
    let mut acc: u64 = 0;
    let mut i: usize = 0;
    while i < inputs.env_vars.len()
        invariant
            i <= inputs.env_vars.len(),
            envs == strs(inputs.env_vars@),
            fe == (|n: Seq<char>| env_entry(n, env_vars@)),
            acc == (hash_sum(envs.take(i as int), fe) % hash_modulus()) as u64,
        decreases inputs.env_vars.len() - i,
    {
        let name = inputs.env_vars[i].as_str();
        let text = match find_env_value(env_vars, name) {
            Some(v) => keyed_entry_text('e', name, Some(v.as_str())),
            None => keyed_entry_text('e', name, None),
        };
        let h = hash_chars(&text);
        proof {
            assert(envs.take(i + 1).drop_last() =~= envs.take(i as int));
            assert(envs.take(i + 1).last() == name@);
            assert(text@ == fe(name@));
            lemma_hash_sum_nonneg(envs.take(i as int), fe);
            lemma_wrapping_sum(hash_sum(envs.take(i as int), fe), h);
        }
        acc = acc.wrapping_add(h);
        i = i + 1;
    }
    assert(envs.take(i as int) =~= envs);
    let ghost base1 = hash_sum(envs, fe);
    proof {
        lemma_hash_sum_nonneg(envs, fe);
    }
    let mut k: usize = 0;
    while k < inputs.trigger_files.len()
        invariant
            k <= inputs.trigger_files.len(),
            triggers == strs(inputs.trigger_files@),
            ft == (|n: Seq<char>| trigger_entry(n, strs(present_triggers@))),
            base1 >= 0,
            acc == ((base1 + hash_sum(triggers.take(k as int), ft)) % hash_modulus()) as u64,
        decreases inputs.trigger_files.len() - k,
    {
        let name = inputs.trigger_files[k].as_str();
        let text = if contains_str(present_triggers, name) {
            keyed_entry_text('t', name, Some(""))
        } else {
            keyed_entry_text('t', name, None)
        };
        proof {
            reveal_strlit("");
        }
        let h = hash_chars(&text);
        proof {
            assert(triggers.take(k + 1).drop_last() =~= triggers.take(k as int));
            assert(triggers.take(k + 1).last() == name@);
            assert(""@ =~= Seq::<char>::empty());
            assert(text@ == ft(name@));
            lemma_hash_sum_nonneg(triggers.take(k as int), ft);
            lemma_wrapping_sum(base1 + hash_sum(triggers.take(k as int), ft), h);
        }
        acc = acc.wrapping_add(h);
        k = k + 1;
    }
    assert(triggers.take(k as int) =~= triggers);
    let ghost base2 = base1 + hash_sum(triggers, ft);
    proof {
        lemma_hash_sum_nonneg(triggers, ft);
    }
    let mut q: usize = 0;
    while q < inputs.source_files.len()
        invariant
            q <= inputs.source_files.len(),
            sources == strs(inputs.source_files@),
            fs == (|n: Seq<char>| source_entry(n, source_contents@)),
            base2 >= 0,
            acc == ((base2 + hash_sum(sources.take(q as int), fs)) % hash_modulus()) as u64,
        decreases inputs.source_files.len() - q,
    {
        let name = inputs.source_files[q].as_str();
        let text = match find_env_value(source_contents, name) {
            Some(c) => keyed_entry_text('s', name, Some(c.as_str())),
            None => keyed_entry_text('s', name, None),
        };
        let h = hash_chars(&text);
        proof {
            assert(sources.take(q + 1).drop_last() =~= sources.take(q as int));
            assert(sources.take(q + 1).last() == name@);
            assert(text@ == fs(name@));
            lemma_hash_sum_nonneg(sources.take(q as int), fs);
            lemma_wrapping_sum(base2 + hash_sum(sources.take(q as int), fs), h);
        }
        acc = acc.wrapping_add(h);
        q = q + 1;
    }
    assert(sources.take(q as int) =~= sources);
    let ghost base3 = base2 + hash_sum(sources, fs);
    proof {
        lemma_hash_sum_nonneg(sources, fs);
    }
    if inputs.uses_command_path {
        let text = keyed_entry_text('p', "", command_path);
        proof {
            reveal_strlit("");
            assert(""@ =~= Seq::<char>::empty());
        }
        let h = hash_chars(&text);
        proof {
            lemma_wrapping_sum(base3, h);
        }
        acc = acc.wrapping_add(h);
    }
    acc
}

/// The cache key of a request's slow results: its directory, the
/// configuration generation, and the hash of what the slow modules read
/// ([`dependency_hash`]).
pub fn cache_key_for_request(
    cwd: &str,
    config_generation: u64,
    inputs: &ModuleDependencyInputs,
    env_vars: &[(String, String)],
    present_triggers: &[String],
    source_contents: &[(String, String)],
    command_path: Option<&str>,
) -> (r: CacheKey)
    ensures
        r@ == (cwd@, config_generation, dependency_hash_spec(*inputs, env_vars@, present_triggers@, source_contents@, match command_path {
            Some(p) => Some(p@),
            None => None,
        })),
{
    let dep_hash = dependency_hash(inputs, env_vars, present_triggers, source_contents, command_path);
    CacheKey::new(cwd.to_owned(), config_generation, dep_hash)
}

/// The lines of an asynchronous update: sent only while the request is still
/// its session's latest (`current_generation` is the session's last accepted
/// generation) and only when the slow results change what was sent.
pub fn slow_update_lines(
    current_generation: Option<u64>,
    generation: u64,
    fast: &FastOutputs,
    slow: &SlowOutput,
    sent_left1: &str,
    sent_left2: &str,
    cols: u16,
    config: &Config,
) -> (r: Option<PromptLines>)
    requires
        config.color_map.wf(),
    ensures
        current_generation != Some(generation) ==> r is None,
        current_generation == Some(generation) ==> ({
            let l1 = compose_line_spec(line1_parts(*fast, Some(*slow), *config), cols as nat);
            let l2 = compose_line_spec(line2_parts(*fast, *config), cols as nat);
            if l1 == sent_left1@ && l2 == sent_left2@ {
                r is None
            } else {
                r matches Some(p) && p.left1@ == l1 && p.left2@ == l2
            }
        }),
{
    match current_generation {
        Some(g) => {
            if g != generation {
                return None;
            }
        },
        None => {
            return None;
        },
    }
    let lines = compose_prompt(fast, Some(slow), cols as usize, config);
    if str_eq(lines.left1.as_str(), sent_left1) && str_eq(lines.left2.as_str(), sent_left2) {
        None
    } else {
        Some(lines)
    }
}

} // verus!
