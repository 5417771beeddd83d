//! Custom prompt modules — user-defined segments via `[[module]]` config.
//!
//! Each [`ResolvedModule`] defines trigger conditions, value sources, and
//! display metadata. Sources within the same named fallback group are tried
//! in declaration order. Reading environment variables, files and command
//! output is left to the caller; this module decides which modules apply,
//! what a source's raw output yields, how values are formatted, and which
//! of several competing modules is shown.
pub mod builtins;
pub mod compile;
pub mod detect;
pub mod format;

use vstd::prelude::*;

use self::builtins::strs;
use self::format::{FormatSegment, lookup, lookup_value, render_format, render_spec, segs_view};
use super::ModuleSpeed;
use crate::config::{Arbitration, ModuleSlot, ModuleWhen, RegexPattern};
use crate::pattern::{first_capture, regex_first_capture};
use crate::render::segment::{Connector, Icon, Segment};
use crate::render::style::Style;
use crate::text::{chars_of, str_eq, string_from_chars, trim, trim_chars};

verus! {

/// A value source, ready to be read.
#[derive(Debug, Clone)]
pub enum ResolvedSource {
    /// An environment variable.
    Env { name: String, regex: Option<RegexPattern> },
    /// A file in the working directory.
    File { path: String, regex: Option<RegexPattern> },
    /// A command's standard output.
    Command { args: Vec<String>, regex: Option<RegexPattern> },
}

impl ResolvedSource {
    /// Whether reading this source is fast (no command to run).
    pub fn is_fast(&self) -> (r: bool)
        ensures
            r == !(self is Command),
    {
        match self {
            ResolvedSource::Command { .. } => false,
            _ => true,
        }
    }
}

/// The sources that provide one variable, tried in declaration order.
#[derive(Debug)]
pub struct ResolvedSourceGroup {
    /// The variable's name.
    pub name: String,
    /// The sources, in declaration order.
    pub sources: Vec<ResolvedSource>,
}

/// A module definition compiled for detection.
#[derive(Debug)]
pub struct ResolvedModule {
    /// Module identifier.
    pub name: String,
    /// Conditions that trigger this module.
    pub when: ModuleWhen,
    /// Value sources grouped by variable name.
    pub source_groups: Vec<ResolvedSourceGroup>,
    /// The parsed format string.
    pub format_segments: Vec<FormatSegment>,
    /// Nerd Font icon glyph.
    pub icon: Option<String>,
    /// Display style.
    pub style: Style,
    /// Connector word before this segment.
    pub connector: Option<String>,
    /// Fast when no source runs a command.
    pub speed: ModuleSpeed,
    /// Arbitration metadata.
    pub arbitration: Option<Arbitration>,
    /// Prompt line placement.
    pub slot: ModuleSlot,
}

/// A detected custom module with its rendered value.
#[derive(Debug, Clone, PartialEq, Eq)]
pub struct CustomModuleInfo {
    /// Module identifier.
    pub name: String,
    /// Rendered value.
    pub value: String,
    /// Nerd Font icon glyph.
    pub icon: Option<String>,
    /// Display style.
    pub style: Style,
    /// Connector word before this segment.
    pub connector: Option<String>,
}

/// The character view of an optional string.
pub open spec fn opt_chars(s: Option<String>) -> Option<Seq<char>> {
    match s {
        Some(v) => Some(v@),
        None => None,
    }
}

impl CustomModuleInfo {
    /// Build a [`Segment`]: the value in the module's style, with its icon in
    /// the same style and its connector word in `connector_style`.
    pub fn to_segment(&self, connector_style: Style) -> (r: Segment)
        ensures
            r.content@ == self.value@,
            r.content_style == Some(self.style),
            match self.connector {
                Some(w) => r.connector matches Some(c) && c.word@ == w@ && c.style == connector_style,
                None => r.connector is None,
            },
            match self.icon {
                Some(g) => r.icon matches Some(i) && i.glyph@ == g@ && i.style == self.style,
                None => r.icon is None,
            },
    {
        let connector = match &self.connector {
            Some(word) => Some(Connector { word: word.as_str().to_owned(), style: connector_style }),
            None => None,
        };
        let icon = match &self.icon {
            Some(glyph) => Some(Icon { glyph: glyph.as_str().to_owned(), style: self.style }),
            None => None,
        };
        Segment { content: self.value.as_str().to_owned(), connector, icon, content_style: Some(self.style) }
    }
}

/// A detected module with its arbitration metadata.
#[derive(Debug, Clone, PartialEq, Eq)]
pub struct DetectedModuleCandidate {
    /// Arbitration metadata of the module.
    pub arbitration: Option<Arbitration>,
    /// The rendered module.
    pub info: CustomModuleInfo,
}

/// The value of environment variable `name` among `env_vars` (the first binding).
pub fn find_env_value<'a>(env_vars: &'a [(String, String)], name: &str) -> (r: Option<&'a String>)
    ensures
        match r {
            Some(v) => lookup(env_vars@, name@) == Some(v@),
            None => lookup(env_vars@, name@) is None,
        },
{
    lookup_value(env_vars, name)
}

/// What a source's raw text yields: the text itself without a regex, else
/// the regex's first capture group.
pub open spec fn apply_regex_spec(input: Seq<char>, regex: Option<RegexPattern>) -> Option<Seq<char>> {
    match regex {
        Some(p) => regex_first_capture(p.text(), input),
        None => Some(input),
    }
}

/// The pattern behind an optional reference.
pub open spec fn opt_deref(regex: Option<&RegexPattern>) -> Option<RegexPattern> {
    match regex {
        Some(p) => Some(*p),
        None => None,
    }
}

/// Applies a source's regex to its raw text.
pub fn apply_regex(input: &str, regex: Option<&RegexPattern>) -> (r: Option<String>)
    ensures
        match r {
            Some(v) => apply_regex_spec(input@, opt_deref(regex)) == Some(v@),
            None => apply_regex_spec(input@, opt_deref(regex)) is None,
        },
{
    match regex {
        Some(p) => first_capture(p.as_str(), input),
        None => Some(input.to_owned()),
    }
}

/// What a value file's content yields: its trimmed text, unless empty or
/// path-like (containing `/`), passed through the source's regex.
pub open spec fn file_value_spec(content: Seq<char>, regex: Option<RegexPattern>) -> Option<Seq<char>> {
    let t = trim(content);
    if t.len() == 0 || t.contains('/') {
        None
    } else {
        apply_regex_spec(t, regex)
    }
}

/// Reads the value held by a value file's content.
pub fn validate_file_content(content: &str, regex: Option<&RegexPattern>) -> (r: Option<String>)
    ensures
        match r {
            Some(v) => file_value_spec(content@, opt_deref(regex)) == Some(v@),
            None => file_value_spec(content@, opt_deref(regex)) is None,
        },
{
    let cs = chars_of(content);
    let t = trim_chars(cs.as_slice());
    if t.len() == 0 {
        return None;
    }
    let mut i: usize = 0;
    while i < t.len()
        invariant
            i <= t.len(),
            t@ == trim(content@),
            t@.len() > 0,
            forall|k: int| 0 <= k < i ==> t@[k] != '/',
        decreases t.len() - i,
    {
        if t[i] == '/' {
            assert(t@[i as int] == '/');
            assert(t@.contains('/'));
            return None;
        }
        i = i + 1;
    }
    let ts = string_from_chars(&t);
    apply_regex(ts.as_str(), regex)
}

/// What a command source's standard output yields: its trimmed text, unless
/// empty, passed through the source's regex.
pub open spec fn command_value_spec(stdout: Seq<char>, regex: Option<RegexPattern>) -> Option<Seq<char>> {
    let t = trim(stdout);
    if t.len() == 0 {
        None
    } else {
        apply_regex_spec(t, regex)
    }
}

/// Reads the value a command source printed.
pub fn command_output_value(stdout: &str, regex: Option<&RegexPattern>) -> (r: Option<String>)
    ensures
        match r {
            Some(v) => command_value_spec(stdout@, opt_deref(regex)) == Some(v@),
            None => command_value_spec(stdout@, opt_deref(regex)) is None,
        },
{
    let cs = chars_of(stdout);
    let t = trim_chars(cs.as_slice());
    if t.len() == 0 {
        return None;
    }
    let ts = string_from_chars(&t);
    apply_regex(ts.as_str(), regex)
}

/// Appends `value` unless it is already present.
pub fn push_unique(values: &mut Vec<String>, value: &str)
    ensures
        (exists|k: int| 0 <= k < old(values)@.len() && (#[trigger] old(values)@[k])@ == value@)
            ==> final(values)@ == old(values)@,
        !(exists|k: int| 0 <= k < old(values)@.len() && (#[trigger] old(values)@[k])@ == value@)
            ==> final(values)@.len() == old(values)@.len() + 1 && final(values)@.drop_last()
            == old(values)@ && final(values)@.last()@ == value@,
{
    let mut i: usize = 0;
    while i < values.len()
        invariant
            i <= values.len(),
            values@ == old(values)@,
            forall|k: int| 0 <= k < i ==> (#[trigger] values@[k])@ != value@,
        decreases values.len() - i,
    {
        if str_eq(values[i].as_str(), value) {
            return;
        }
        i = i + 1;
    }
    values.push(value.to_owned());
    assert(values@.drop_last() =~= old(values)@);
}

/// Whether a name is among `present`.
pub open spec fn listed_in(present: Seq<String>, name: Seq<char>) -> bool {
    exists|k: int| 0 <= k < present.len() && (#[trigger] present[k])@ == name
}

/// Whether a module's trigger conditions hold: one of its marker files is
/// present (or it names none), and one of its variables is set (or it names none).
pub open spec fn when_holds(when: ModuleWhen, env_vars: Seq<(String, String)>, files: Seq<String>) -> bool {
    &&& (when.files@.len() == 0 || exists|k: int|
        0 <= k < when.files@.len() && listed_in(files, (#[trigger] when.files@[k])@))
    &&& (when.env@.len() == 0 || exists|k: int|
        0 <= k < when.env@.len() && lookup(env_vars, (#[trigger] when.env@[k])@) is Some)
}

fn any_listed(names: &Vec<String>, present: &[String]) -> (r: bool)
    ensures
        r == exists|k: int| 0 <= k < names@.len() && listed_in(present@, (#[trigger] names@[k])@),
{
    let mut i: usize = 0;
    while i < names.len()
        invariant
            i <= names.len(),
            forall|k: int| 0 <= k < i ==> !listed_in(present@, (#[trigger] names@[k])@),
        decreases names.len() - i,
    {
        let mut j: usize = 0;
        while j < present.len()
            invariant
                j <= present.len(),
                i < names.len(),
                forall|m: int| 0 <= m < j ==> (#[trigger] present@[m])@ != names@[i as int]@,
            decreases present.len() - j,
        {
            if str_eq(present[j].as_str(), names[i].as_str()) {
                assert(listed_in(present@, names@[i as int]@));
                return true;
            }
            j = j + 1;
        }
        i = i + 1;
    }
    false
}

fn any_set(names: &Vec<String>, env_vars: &[(String, String)]) -> (r: bool)
    ensures
        r == exists|k: int| 0 <= k < names@.len() && lookup(env_vars@, (#[trigger] names@[k])@) is Some,
{
    let mut i: usize = 0;
    while i < names.len()
        invariant
            i <= names.len(),
            forall|k: int| 0 <= k < i ==> lookup(env_vars@, (#[trigger] names@[k])@) is None,
        decreases names.len() - i,
    {
        if find_env_value(env_vars, names[i].as_str()).is_some() {
            return true;
        }
        i = i + 1;
    }
    false
}

/// Whether a module's trigger conditions hold, given the environment and the
/// marker files present in the working directory.
pub fn check_when(when: &ModuleWhen, env_vars: &[(String, String)], files: &[String]) -> (r: bool)
    ensures
        r == when_holds(*when, env_vars@, files@),
{
    let files_ok = when.files.len() == 0 || any_listed(&when.files, files);
    let env_ok = when.env.len() == 0 || any_set(&when.env, env_vars);
    files_ok && env_ok
}

/// The positions of the modules of the given speed whose trigger conditions hold.
pub open spec fn matching_spec(
    defs: Seq<ResolvedModule>,
    speed: ModuleSpeed,
    env_vars: Seq<(String, String)>,
    files: Seq<String>,
) -> Seq<int>
    decreases defs.len(),
{
    if defs.len() == 0 {
        Seq::empty()
    } else {
        let prev = matching_spec(defs.drop_last(), speed, env_vars, files);
        let m = defs.last();
        if m.speed == speed && when_holds(m.when, env_vars, files) {
            prev.push(defs.len() - 1)
        } else {
            prev
        }
    }
}

/// Matching law: a position is selected exactly when its module has the
/// requested speed and its trigger conditions hold, and the positions come
/// in increasing order.
pub proof fn lemma_matching_selects_every_match(
    defs: Seq<ResolvedModule>,
    speed: ModuleSpeed,
    env_vars: Seq<(String, String)>,
    files: Seq<String>,
)
    ensures
        forall|i: int|
            0 <= i < defs.len() ==> (matching_spec(defs, speed, env_vars, files).contains(i) <==> (
            defs[i].speed == speed && when_holds(defs[i].when, env_vars, files))),
        forall|k: int|
            0 <= k < matching_spec(defs, speed, env_vars, files).len() ==> 0
                <= #[trigger] matching_spec(defs, speed, env_vars, files)[k] < defs.len(),
        forall|k: int, l: int|
            0 <= k < l < matching_spec(defs, speed, env_vars, files).len() ==> #[trigger] matching_spec(
                defs,
                speed,
                env_vars,
                files,
            )[k] < #[trigger] matching_spec(defs, speed, env_vars, files)[l],
    decreases defs.len(),
{
    if defs.len() > 0 {
        let d = defs.drop_last();
        let prev = matching_spec(d, speed, env_vars, files);
        lemma_matching_selects_every_match(d, speed, env_vars, files);
        let r = matching_spec(defs, speed, env_vars, files);
        assert forall|i: int|
            0 <= i < defs.len() implies (r.contains(i) <==> (defs[i].speed == speed && when_holds(
                defs[i].when,
                env_vars,
                files,
            ))) by {
            if i < d.len() {
                assert(d[i] == defs[i]);
                if r.contains(i) {
                    let k = choose|k: int| 0 <= k < r.len() && r[k] == i;
                    if k < prev.len() {
                        assert(prev[k] == r[k]);
                    }
                    assert(prev.contains(i));
                }
                if prev.contains(i) {
                    let k = choose|k: int| 0 <= k < prev.len() && prev[k] == i;
                    assert(r[k] == prev[k]);
                }
            } else {
                if r.contains(i) {
                    let k = choose|k: int| 0 <= k < r.len() && r[k] == i;
                    if k < prev.len() {
                        assert(prev[k] == r[k]);
                    }
                }
                if defs[i].speed == speed && when_holds(defs[i].when, env_vars, files) {
                    assert(r[r.len() - 1] == i);
                }
            }
        }
    }
}

/// The positions, in order, of the modules of the given speed whose trigger
/// conditions hold.
pub fn matching_modules(
    defs: &[ResolvedModule],
    speed: ModuleSpeed,
    env_vars: &[(String, String)],
    files: &[String],
) -> (r: Vec<usize>)
    ensures
        r@.len() == matching_spec(defs@, speed, env_vars@, files@).len(),
        forall|k: int| 0 <= k < r@.len() ==> r@[k] as int == #[trigger] matching_spec(defs@, speed, env_vars@, files@)[k],
{
    let mut r: Vec<usize> = Vec::new();
    let mut i: usize = 0;
    while i < defs.len()
        invariant
            i <= defs.len(),
            r@.len() == matching_spec(defs@.take(i as int), speed, env_vars@, files@).len(),
            forall|k: int| 0 <= k < r@.len() ==> r@[k] as int == #[trigger] matching_spec(
                defs@.take(i as int),
                speed,
                env_vars@,
                files@,
            )[k],
        decreases defs.len() - i,
    {
        assert(defs@.take(i + 1).drop_last() =~= defs@.take(i as int));
        if defs[i].speed == speed && check_when(&defs[i].when, env_vars, files) {
            r.push(i);
        }
        i = i + 1;
    }
    assert(defs@.take(defs.len() as int) =~= defs@);
    r
}

/// The detected module built from a definition and its variable values,
/// or `None` when a required variable is missing.
pub fn format_module(def: &ResolvedModule, values: &[(String, String)]) -> (r: Option<CustomModuleInfo>)
    ensures
        match render_spec(segs_view(def.format_segments@), values@, false) {
            Some(v) => r matches Some(info) && info.name@ == def.name@ && info.value@ == v
                && opt_chars(info.icon) == opt_chars(def.icon) && info.style == def.style
                && opt_chars(info.connector) == opt_chars(def.connector),
            None => r is None,
        },
{
    let value = match render_format(def.format_segments.as_slice(), values) {
        Some(v) => v,
        None => return None,
    };
    let icon = match &def.icon {
        Some(g) => Some(g.as_str().to_owned()),
        None => None,
    };
    let connector = match &def.connector {
        Some(w) => Some(w.as_str().to_owned()),
        None => None,
    };
    Some(CustomModuleInfo { name: def.name.as_str().to_owned(), value, icon, style: def.style, connector })
}

/// `names` with `n` appended unless already present.
pub open spec fn add_unique(names: Seq<Seq<char>>, n: Seq<char>) -> Seq<Seq<char>> {
    if names.contains(n) { names } else { names.push(n) }
}

/// `names` with each of `refs` added in order, skipping those already present.
pub open spec fn add_all_unique(names: Seq<Seq<char>>, refs: Seq<Seq<char>>) -> Seq<Seq<char>>
    decreases refs.len(),
{
    if refs.len() == 0 {
        names
    } else {
        add_unique(add_all_unique(names, refs.drop_last()), refs.last())
    }
}

/// The variable names read by environment sources, in order.
pub open spec fn source_env_names(srcs: Seq<ResolvedSource>) -> Seq<Seq<char>>
    decreases srcs.len(),
{
    if srcs.len() == 0 {
        Seq::empty()
    } else {
        let prev = source_env_names(srcs.drop_last());
        match srcs.last() {
            ResolvedSource::Env { name, .. } => prev.push(name@),
            _ => prev,
        }
    }
}

/// The file paths read by file sources, in order.
pub open spec fn source_file_paths(srcs: Seq<ResolvedSource>) -> Seq<Seq<char>>
    decreases srcs.len(),
{
    if srcs.len() == 0 {
        Seq::empty()
    } else {
        let prev = source_file_paths(srcs.drop_last());
        match srcs.last() {
            ResolvedSource::File { path, .. } => prev.push(path@),
            _ => prev,
        }
    }
}

/// The sources of all groups, group by group.
pub open spec fn all_sources(gs: Seq<ResolvedSourceGroup>) -> Seq<ResolvedSource>
    decreases gs.len(),
{
    if gs.len() == 0 {
        Seq::empty()
    } else {
        all_sources(gs.drop_last()) + gs.last().sources@
    }
}

/// The environment variables a module reads: its trigger variables, then
/// those of its environment sources.
pub open spec fn module_env_refs(m: ResolvedModule) -> Seq<Seq<char>> {
    strs(m.when.env@) + source_env_names(all_sources(m.source_groups@))
}

/// The files a module reads: its marker files, then those of its file sources.
pub open spec fn module_file_refs(m: ResolvedModule) -> Seq<Seq<char>> {
    strs(m.when.files@) + source_file_paths(all_sources(m.source_groups@))
}

/// The environment variables the modules read, each once, in first-use order.
pub open spec fn required_env_spec(mods: Seq<ResolvedModule>) -> Seq<Seq<char>>
    decreases mods.len(),
{
    if mods.len() == 0 {
        Seq::empty()
    } else {
        add_all_unique(required_env_spec(mods.drop_last()), module_env_refs(mods.last()))
    }
}

fn add_unique_name(dst: &mut Vec<String>, n: &String)
    ensures
        strs(final(dst)@) == add_unique(strs(old(dst)@), n@),
{
    let ghost before = strs(dst@);
    let ghost old_dst = dst@;
    proof {
        if before.contains(n@) {
            let k = choose|k: int| 0 <= k < before.len() && before[k] == n@;
            assert(old_dst[k]@ == n@);
        } else {
            assert forall|k: int| 0 <= k < old_dst.len() implies (#[trigger] old_dst[k])@ != n@ by {
                assert(before[k] == old_dst[k]@);
            }
        }
    }
    push_unique(dst, n.as_str());
    proof {
        if !before.contains(n@) {
            assert forall|k: int| 0 <= k < dst@.len() implies strs(dst@)[k] == before.push(n@)[k] by {
                if k < old_dst.len() {
                    assert(dst@[k] == old_dst[k]);
                }
            }
        }
    }
    assert(strs(dst@) =~= add_unique(before, n@));
}

fn add_sources_refs(dst: &mut Vec<String>, srcs: &Vec<ResolvedSource>, env: bool)
    ensures
        strs(final(dst)@) == add_all_unique(
            strs(old(dst)@),
            if env { source_env_names(srcs@) } else { source_file_paths(srcs@) },
        ),
{
    let ghost start = strs(dst@);
    let mut i: usize = 0;
    while i < srcs.len()
        invariant
            i <= srcs.len(),
            strs(dst@) == add_all_unique(
                start,
                if env { source_env_names(srcs@.take(i as int)) } else { source_file_paths(srcs@.take(i as int)) },
            ),
        decreases srcs.len() - i,
    {
        assert(srcs@.take(i + 1).drop_last() =~= srcs@.take(i as int));
        let ghost prev = if env { source_env_names(srcs@.take(i as int)) } else { source_file_paths(srcs@.take(i as int)) };
        match &srcs[i] {
            ResolvedSource::Env { name, .. } => {
                if env {
                    add_unique_name(dst, name);
                    assert(prev.push(name@).drop_last() =~= prev);
                }
            },
            ResolvedSource::File { path, .. } => {
                if !env {
                    add_unique_name(dst, path);
                    assert(prev.push(path@).drop_last() =~= prev);
                }
            },
            ResolvedSource::Command { .. } => {},
        }
        i = i + 1;
    }
    assert(srcs@.take(srcs.len() as int) =~= srcs@);
}

proof fn lemma_add_all_concat(names: Seq<Seq<char>>, a: Seq<Seq<char>>, b: Seq<Seq<char>>)
    ensures
        add_all_unique(names, a + b) == add_all_unique(add_all_unique(names, a), b),
    decreases b.len(),
{
    if b.len() == 0 {
        assert(a + b =~= a);
    } else {
        assert((a + b).drop_last() =~= a + b.drop_last());
        lemma_add_all_concat(names, a, b.drop_last());
    }
}

fn add_strings(dst: &mut Vec<String>, src: &Vec<String>)
    ensures
        strs(final(dst)@) == add_all_unique(strs(old(dst)@), strs(src@)),
{
    let ghost start = strs(dst@);
    let mut i: usize = 0;
    while i < src.len()
        invariant
            i <= src.len(),
            strs(dst@) == add_all_unique(start, strs(src@.take(i as int))),
        decreases src.len() - i,
    {
        assert(strs(src@.take(i + 1)).drop_last() =~= strs(src@.take(i as int)));
        add_unique_name(dst, &src[i]);
        i = i + 1;
    }
    assert(src@.take(src.len() as int) =~= src@);
}

fn add_group_refs(dst: &mut Vec<String>, gs: &Vec<ResolvedSourceGroup>, env: bool)
    ensures
        strs(final(dst)@) == add_all_unique(
            strs(old(dst)@),
            if env { source_env_names(all_sources(gs@)) } else { source_file_paths(all_sources(gs@)) },
        ),
{
    let ghost mid = strs(dst@);
    let mut g: usize = 0;
    while g < gs.len()
        invariant
            g <= gs.len(),
            strs(dst@) == add_all_unique(
                mid,
                if env { source_env_names(all_sources(gs@.take(g as int))) } else { source_file_paths(all_sources(gs@.take(g as int))) },
            ),
        decreases gs.len() - g,
    {
        assert(gs@.take(g + 1).drop_last() =~= gs@.take(g as int));
        let ghost before = all_sources(gs@.take(g as int));
        let ghost added = gs@[g as int].sources@;
        proof {
            lemma_refs_concat(before, added, env);
            lemma_add_all_concat(
                mid,
                if env { source_env_names(before) } else { source_file_paths(before) },
                if env { source_env_names(added) } else { source_file_paths(added) },
            );
        }
        add_sources_refs(dst, &gs[g].sources, env);
        g = g + 1;
    }
    assert(gs@.take(gs.len() as int) =~= gs@);
}

fn add_module_refs(dst: &mut Vec<String>, m: &ResolvedModule, env: bool)
    ensures
        strs(final(dst)@) == add_all_unique(
            strs(old(dst)@),
            if env { module_env_refs(*m) } else { module_file_refs(*m) },
        ),
{
    let ghost start = strs(dst@);
    if env {
        add_strings(dst, &m.when.env);
    } else {
        add_strings(dst, &m.when.files);
    }
    add_group_refs(dst, &m.source_groups, env);
    proof {
        lemma_add_all_concat(
            start,
            if env { strs(m.when.env@) } else { strs(m.when.files@) },
            if env { source_env_names(all_sources(m.source_groups@)) } else { source_file_paths(all_sources(m.source_groups@)) },
        );
    }
}

proof fn lemma_refs_concat(a: Seq<ResolvedSource>, b: Seq<ResolvedSource>, env: bool)
    ensures
        env ==> source_env_names(a + b) == source_env_names(a) + source_env_names(b),
        !env ==> source_file_paths(a + b) == source_file_paths(a) + source_file_paths(b),
    decreases b.len(),
{
    if b.len() == 0 {
        assert(a + b =~= a);
        assert(source_env_names(a) + source_env_names(b) =~= source_env_names(a));
        assert(source_file_paths(a) + source_file_paths(b) =~= source_file_paths(a));
    } else {
        assert((a + b).drop_last() =~= a + b.drop_last());
        lemma_refs_concat(a, b.drop_last(), env);
        assert(source_env_names(a) + source_env_names(b.drop_last()).push(b.last()->Env_name@) =~= (
        source_env_names(a) + source_env_names(b.drop_last())).push(b.last()->Env_name@));
        assert(source_file_paths(a) + source_file_paths(b.drop_last()).push(b.last()->File_path@) =~= (
        source_file_paths(a) + source_file_paths(b.drop_last())).push(b.last()->File_path@));
    }
}

/// The environment variable names that the modules read, each once, in
/// order of first use (trigger variables, then environment sources).
pub fn required_env_var_names(modules: &[ResolvedModule]) -> (r: Vec<String>)
    ensures
        strs(r@) == required_env_spec(modules@),
{
    let mut names: Vec<String> = Vec::new();
    let mut i: usize = 0;
    assert(strs(names@) =~= Seq::<Seq<char>>::empty());
    while i < modules.len()
        invariant
            i <= modules.len(),
            strs(names@) == required_env_spec(modules@.take(i as int)),
        decreases modules.len() - i,
    {
        assert(modules@.take(i + 1).drop_last() =~= modules@.take(i as int));
        add_module_refs(&mut names, &modules[i], true);
        i = i + 1;
    }
    assert(modules@.take(modules.len() as int) =~= modules@);
    names
}

/// Whether none of the sources runs a command.
pub open spec fn no_command(srcs: Seq<ResolvedSource>) -> bool {
    forall|k: int| 0 <= k < srcs.len() ==> !(#[trigger] srcs[k] is Command)
}

/// The marker files of a module.
pub open spec fn module_trigger_refs(m: ResolvedModule) -> Seq<Seq<char>> {
    strs(m.when.files@)
}

/// The files that a module's file sources read.
pub open spec fn module_source_file_refs(m: ResolvedModule) -> Seq<Seq<char>> {
    source_file_paths(all_sources(m.source_groups@))
}

/// Whether one of a module's sources runs a command (and so depends on `PATH`).
pub open spec fn module_runs_command(m: ResolvedModule) -> bool {
    !no_command(all_sources(m.source_groups@))
}

proof fn lemma_no_command_concat(a: Seq<ResolvedSource>, b: Seq<ResolvedSource>)
    ensures
        no_command(a + b) <==> no_command(a) && no_command(b),
{
    if no_command(a) && no_command(b) {
        assert forall|k: int| 0 <= k < (a + b).len() implies !(#[trigger] (a + b)[k] is Command) by {
            if k < a.len() {
                assert((a + b)[k] == a[k]);
            } else {
                assert((a + b)[k] == b[k - a.len()]);
            }
        }
    }
    if no_command(a + b) {
        assert forall|k: int| 0 <= k < a.len() implies !(#[trigger] a[k] is Command) by {
            assert((a + b)[k] == a[k]);
        }
        assert forall|k: int| 0 <= k < b.len() implies !(#[trigger] b[k] is Command) by {
            assert((a + b)[k + a.len()] == b[k]);
        }
    }
}

/// Whether one of the module's sources runs a command.
pub fn runs_command(m: &ResolvedModule) -> (r: bool)
    ensures
        r == module_runs_command(*m),
{
    let mut g: usize = 0;
    while g < m.source_groups.len()
        invariant
            g <= m.source_groups.len(),
            no_command(all_sources(m.source_groups@.take(g as int))),
        decreases m.source_groups.len() - g,
    {
        let ghost gs = m.source_groups@;
        assert(gs.take(g + 1).drop_last() =~= gs.take(g as int));
        let srcs = &m.source_groups[g].sources;
        let mut k: usize = 0;
        while k < srcs.len()
            invariant
                k <= srcs.len(),
                g < m.source_groups.len(),
                srcs@ == m.source_groups@[g as int].sources@,
                forall|q: int| 0 <= q < k ==> !(#[trigger] srcs@[q] is Command),
            decreases srcs.len() - k,
        {
            if !srcs[k].is_fast() {
                proof {
                    let gs = m.source_groups@;
                    let before = all_sources(gs.take(g as int));
                    assert(!no_command(srcs@));
                    lemma_no_command_concat(before, srcs@);
                    assert(gs.take(g + 1).drop_last() =~= gs.take(g as int));
                    assert(all_sources(gs.take(g + 1)) == before + srcs@);
                    lemma_no_command_prefix(gs, g + 1);
                }
                return true;
            }
            k = k + 1;
        }
        proof {
            lemma_no_command_concat(all_sources(gs.take(g as int)), srcs@);
        }
        g = g + 1;
    }
    assert(m.source_groups@.take(m.source_groups.len() as int) =~= m.source_groups@);
    false
}

/// A command among the sources of the first `n` groups is a command of all.
proof fn lemma_no_command_prefix(gs: Seq<ResolvedSourceGroup>, n: int)
    requires
        0 <= n <= gs.len(),
    ensures
        no_command(all_sources(gs)) ==> no_command(all_sources(gs.take(n))),
    decreases gs.len() - n,
{
    if n < gs.len() {
        lemma_no_command_prefix(gs, n + 1);
        assert(gs.take(n + 1).drop_last() =~= gs.take(n));
        lemma_no_command_concat(all_sources(gs.take(n)), gs[n].sources@);
    } else {
        assert(gs.take(n) =~= gs);
    }
}

/// The inputs that the slow results of a module selection depend on.
#[derive(Debug, Clone, Default, PartialEq, Eq)]
pub struct ModuleDependencyInputs {
    /// Environment variables read (trigger variables and environment sources), each once.
    pub env_vars: Vec<String>,
    /// Marker files whose presence triggers a module, each once.
    pub trigger_files: Vec<String>,
    /// Files that file sources read, each once.
    pub source_files: Vec<String>,
    /// Whether a command source runs, so that the `PATH` it runs under matters.
    pub uses_command_path: bool,
}

impl ModuleDependencyInputs {
    /// Records the variables, files and command use of `module`.
    pub fn add_module(&mut self, module: &ResolvedModule)
        ensures
            strs(final(self).env_vars@) == add_all_unique(strs(old(self).env_vars@), module_env_refs(*module)),
            strs(final(self).trigger_files@) == add_all_unique(
                strs(old(self).trigger_files@),
                module_trigger_refs(*module),
            ),
            strs(final(self).source_files@) == add_all_unique(
                strs(old(self).source_files@),
                module_source_file_refs(*module),
            ),
            final(self).uses_command_path == (old(self).uses_command_path || module_runs_command(*module)),
    {
        add_module_refs(&mut self.env_vars, module, true);
        add_strings(&mut self.trigger_files, &module.when.files);
        add_group_refs(&mut self.source_files, &module.source_groups, false);
        if runs_command(module) {
            self.uses_command_path = true;
        }
    }
}

/// Whether no name occurs twice.
pub open spec fn no_dups(names: Seq<Seq<char>>) -> bool {
    forall|i: int, j: int| 0 <= i < j < names.len() ==> names[i] != names[j]
}

proof fn lemma_add_all_unique(names: Seq<Seq<char>>, refs: Seq<Seq<char>>)
    requires
        no_dups(names),
    ensures
        no_dups(add_all_unique(names, refs)),
        forall|n: Seq<char>| names.contains(n) ==> add_all_unique(names, refs).contains(n),
        forall|k: int| 0 <= k < refs.len() ==> add_all_unique(names, refs).contains(#[trigger] refs[k]),
    decreases refs.len(),
{
    if refs.len() > 0 {
        lemma_add_all_unique(names, refs.drop_last());
        let prev = add_all_unique(names, refs.drop_last());
        let n = refs.last();
        if !prev.contains(n) {
            assert forall|i: int, j: int| 0 <= i < j < prev.push(n).len() implies prev.push(n)[i] != prev.push(
                n,
            )[j] by {
                if j == prev.len() {
                    assert(prev.push(n)[i] == prev[i]);
                }
            }
            assert forall|m: Seq<char>| prev.contains(m) implies prev.push(n).contains(m) by {
                let k = choose|k: int| 0 <= k < prev.len() && prev[k] == m;
                assert(prev.push(n)[k] == m);
            }
            assert(prev.push(n)[prev.len() as int] == n);
        }
        assert forall|k: int| 0 <= k < refs.len() implies add_all_unique(names, refs).contains(#[trigger] refs[k]) by {
            if k < refs.len() - 1 {
                assert(refs.drop_last()[k] == refs[k]);
            }
        }
    }
}

/// The required environment variable names hold no duplicate, and every
/// variable that a module reads (trigger or source) is among them.
pub proof fn lemma_required_env_complete(mods: Seq<ResolvedModule>)
    ensures
        no_dups(required_env_spec(mods)),
        forall|i: int, k: int|
            0 <= i < mods.len() && 0 <= k < module_env_refs(mods[i]).len() ==> required_env_spec(mods).contains(
                #[trigger] module_env_refs(mods[i])[k],
            ),
    decreases mods.len(),
{
    if mods.len() > 0 {
        lemma_required_env_complete(mods.drop_last());
        let prev = required_env_spec(mods.drop_last());
        lemma_add_all_unique(prev, module_env_refs(mods.last()));
        assert forall|i: int, k: int|
            0 <= i < mods.len() && 0 <= k < module_env_refs(mods[i]).len() implies required_env_spec(mods).contains(
            #[trigger] module_env_refs(mods[i])[k]) by {
            if i < mods.len() - 1 {
                assert(mods.drop_last()[i] == mods[i]);
                assert(prev.contains(module_env_refs(mods[i])[k]));
            }
        }
    }
}

/// The first result, from index `i` on, of a source that is fast (or, with
/// `fast == false`, of a command source) and gave a value.
pub open spec fn first_result(
    srcs: Seq<ResolvedSource>,
    results: Seq<Option<String>>,
    fast: bool,
    i: int,
) -> Option<Seq<char>>
    decreases results.len() - i,
{
    if i < 0 || i >= results.len() || i >= srcs.len() {
        None
    } else if (!(srcs[i] is Command)) == fast && results[i] is Some {
        Some(results[i]->0@)
    } else {
        first_result(srcs, results, fast, i + 1)
    }
}

/// A variable's value from what its sources gave: sources are tried in
/// declaration order and the first that gives a value wins, the fast sources
/// (environment and files) before the commands.
pub open spec fn group_value_spec(srcs: Seq<ResolvedSource>, results: Seq<Option<String>>) -> Option<Seq<char>> {
    match first_result(srcs, results, true, 0) {
        Some(v) => Some(v),
        None => first_result(srcs, results, false, 0),
    }
}

fn first_result_of(group: &ResolvedSourceGroup, results: &Vec<Option<String>>, fast: bool) -> (r: Option<String>)
    requires
        results@.len() == group.sources@.len(),
    ensures
        opt_chars(r) == first_result(group.sources@, results@, fast, 0),
{
    let mut i: usize = 0;
    while i < results.len()
        invariant
            i <= results.len(),
            results@.len() == group.sources@.len(),
            first_result(group.sources@, results@, fast, 0) == first_result(group.sources@, results@, fast, i as int),
        decreases results.len() - i,
    {
        if group.sources[i].is_fast() == fast {
            if let Some(v) = &results[i] {
                return Some(v.as_str().to_owned());
            }
        }
        i = i + 1;
    }
    None
}

/// Picks a variable's value from the results of its sources (`results[k]`
/// is what `group.sources[k]` gave).
pub fn group_value(group: &ResolvedSourceGroup, results: &Vec<Option<String>>) -> (r: Option<String>)
    requires
        results@.len() == group.sources@.len(),
    ensures
        opt_chars(r) == group_value_spec(group.sources@, results@),
{
    match first_result_of(group, results, true) {
        Some(v) => Some(v),
        None => first_result_of(group, results, false),
    }
}


/// Whether the commands of a variable's sources are to be run: only when no
/// fast source (environment or file) gave a value (`fast_results[k]` is what
/// `group.sources[k]` gave; the commands' own slots are not read).
pub fn needs_slow_sources(group: &ResolvedSourceGroup, fast_results: &Vec<Option<String>>) -> (r: bool)
    requires
        fast_results@.len() == group.sources@.len(),
    ensures
        r == (first_result(group.sources@, fast_results@, true, 0) is None),
{
    first_result_of(group, fast_results, true).is_none()
}

} // verus!
