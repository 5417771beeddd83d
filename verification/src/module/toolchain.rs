//! Toolchain module — names the language toolchain of a directory and reads
//! its version from the toolchain's `--version` output.
//!
//! Looking for marker files and running the version command is left to the
//! caller; this module decides from what they found.
use vstd::prelude::*;

use super::ModuleSpeed;
use crate::text::{
    chars_of, has_prefix, push_str_chars, str_eq, split_whitespace, string_from_chars, trim,
    trim_chars, words,
};

verus! {

/// Marker files, in priority order, with the toolchain each one names.
pub open spec fn toolchain_files() -> Seq<(Seq<char>, Seq<char>)> {
    seq![
        ("Cargo.toml"@, "rust"@),
        ("bun.lockb"@, "bun"@),
        ("bunfig.toml"@, "bun"@),
        ("package.json"@, "node"@),
        ("go.mod"@, "go"@),
        ("pyproject.toml"@, "python"@),
        ("setup.py"@, "python"@),
        ("Gemfile"@, "ruby"@),
    ]
}

/// The marker files with their toolchain names.
pub fn toolchain_file_table() -> (r: Vec<(&'static str, &'static str)>)
    ensures
        r@.len() == toolchain_files().len(),
        forall|i: int|
            0 <= i < r@.len() ==> (#[trigger] r@[i]).0@ == toolchain_files()[i].0 && r@[i].1@
                == toolchain_files()[i].1,
{
    let r = vec![
        ("Cargo.toml", "rust"),
        ("bun.lockb", "bun"),
        ("bunfig.toml", "bun"),
        ("package.json", "node"),
        ("go.mod", "go"),
        ("pyproject.toml", "python"),
        ("setup.py", "python"),
        ("Gemfile", "ruby"),
    ];
    assert(r@.len() == 8);
    r
}

/// Whether `name` is one of `present`.
pub open spec fn listed(present: Seq<String>, name: Seq<char>) -> bool {
    exists|k: int| 0 <= k < present.len() && (#[trigger] present[k])@ == name
}

/// The toolchain of the first marker (in priority order) that is present.
pub open spec fn detect_toolchain_spec(present: Seq<String>, i: int) -> Option<Seq<char>>
    decreases toolchain_files().len() - i,
{
    if i < 0 || i >= toolchain_files().len() {
        None
    } else if listed(present, toolchain_files()[i].0) {
        Some(toolchain_files()[i].1)
    } else {
        detect_toolchain_spec(present, i + 1)
    }
}

/// Whether a file named `name` is among `present`.
pub open spec fn file_present(present: Seq<String>, name: Seq<char>) -> bool {
    exists|q: int| 0 <= q < present.len() && (#[trigger] present[q])@ == name
}

proof fn lemma_detect_from(present: Seq<String>, k: int, i: int)
    requires
        0 <= k <= i < toolchain_files().len(),
        file_present(present, toolchain_files()[i].0),
        forall|j: int| k <= j < i ==> !file_present(present, #[trigger] toolchain_files()[j].0),
    ensures
        detect_toolchain_spec(present, k) == Some(toolchain_files()[i].1),
    decreases i - k,
{
    if k < i {
        assert(!file_present(present, toolchain_files()[k].0));
        lemma_detect_from(present, k + 1, i);
    }
}

proof fn lemma_detect_none_from(present: Seq<String>, k: int)
    requires
        0 <= k <= toolchain_files().len(),
        forall|j: int| k <= j < toolchain_files().len() ==> !file_present(present, #[trigger] toolchain_files()[j].0),
    ensures
        detect_toolchain_spec(present, k) is None,
    decreases toolchain_files().len() - k,
{
    if k < toolchain_files().len() {
        assert(!file_present(present, toolchain_files()[k].0));
        lemma_detect_none_from(present, k + 1);
    }
}

/// Detection law: the toolchain named is that of the first marker of the
/// table, in its order, whose file is present; none when no marker file is.
pub proof fn lemma_detect_first_present_marker(present: Seq<String>)
    ensures
        forall|i: int|
            0 <= i < toolchain_files().len() && file_present(present, #[trigger] toolchain_files()[i].0) && (forall|j: int|
                0 <= j < i ==> !file_present(present, #[trigger] toolchain_files()[j].0))
                ==> detect_toolchain_spec(present, 0) == Some(toolchain_files()[i].1),
        (forall|j: int| 0 <= j < toolchain_files().len() ==> !file_present(present, #[trigger] toolchain_files()[j].0))
            ==> detect_toolchain_spec(present, 0) is None,
{
    assert forall|i: int|
        0 <= i < toolchain_files().len() && file_present(present, #[trigger] toolchain_files()[i].0) && (forall|j: int|
            0 <= j < i ==> !file_present(present, #[trigger] toolchain_files()[j].0))
        implies detect_toolchain_spec(present, 0) == Some(toolchain_files()[i].1) by {
        lemma_detect_from(present, 0, i);
    }
    if forall|j: int| 0 <= j < toolchain_files().len() ==> !file_present(present, #[trigger] toolchain_files()[j].0) {
        lemma_detect_none_from(present, 0);
    }
}

/// Names the toolchain given the marker files present in the directory
/// (`present` lists the names of its regular files).
pub fn detect_toolchain(present: &[String]) -> (r: Option<&'static str>)
    ensures
        match r {
            Some(n) => detect_toolchain_spec(present@, 0) == Some(n@),
            None => detect_toolchain_spec(present@, 0) is None,
        },
{
    let table = toolchain_file_table();
    let mut i: usize = 0;
    while i < table.len()
        invariant
            i <= table.len(),
            table@.len() == toolchain_files().len(),
            forall|j: int|
                0 <= j < table@.len() ==> (#[trigger] table@[j]).0@ == toolchain_files()[j].0
                    && table@[j].1@ == toolchain_files()[j].1,
            detect_toolchain_spec(present@, i as int) == detect_toolchain_spec(present@, 0),
        decreases table.len() - i,
    {
        let (file, name) = table[i];
        let mut k: usize = 0;
        let mut found = false;
        while k < present.len()
            invariant
                k <= present.len(),
                found == exists|m: int| 0 <= m < k && (#[trigger] present@[m])@ == file@,
            decreases present.len() - k,
        {
            if str_eq(present[k].as_str(), file) {
                found = true;
            }
            k = k + 1;
        }
        if found {
            return Some(name);
        }
        i = i + 1;
    }
    None
}

/// `v` followed by `version`, unless `version` already starts with `v`.
pub open spec fn v_prefixed(version: Seq<char>) -> Seq<char> {
    if version.len() > 0 && version[0] == 'v' {
        version
    } else {
        seq!['v'] + version
    }
}

/// Prefixes `version` with `v` unless it already has one.
pub fn ensure_v_prefix(version: &str) -> (r: String)
    ensures
        r@ == v_prefixed(version@),
{
    let cs = chars_of(version);
    if cs.len() > 0 && cs[0] == 'v' {
        return string_from_chars(&cs);
    }
    let mut out: Vec<char> = Vec::new();
    out.push('v');
    push_str_chars(&mut out, version);
    string_from_chars(&out)
}

/// Whether `c` is an ASCII digit.
pub open spec fn ascii_digit(c: char) -> bool {
    '0' <= c && c <= '9'
}

/// The first word `go<digit>...` of `ws`, without its `go`.
pub open spec fn go_version(ws: Seq<Seq<char>>) -> Option<Seq<char>>
    decreases ws.len(),
{
    if ws.len() == 0 {
        None
    } else if has_prefix(ws[0], "go"@) && ws[0].len() > 2 && ascii_digit(ws[0][2]) {
        Some(ws[0].skip(2))
    } else {
        go_version(ws.drop_first())
    }
}

/// `s` up to (not including) its first `p`.
pub open spec fn before_p(s: Seq<char>) -> Seq<char>
    decreases s.len(),
{
    if s.len() == 0 {
        s
    } else if s[0] == 'p' {
        Seq::empty()
    } else {
        seq![s[0]] + before_p(s.drop_first())
    }
}

/// The version read from a toolchain's `--version` output.
pub open spec fn parse_version_spec(name: Seq<char>, output: Seq<char>) -> Option<Seq<char>> {
    let ws = words(output);
    if name == "rust"@ || name == "python"@ {
        if ws.len() >= 2 { Some(seq!['v'] + ws[1]) } else { None }
    } else if name == "node"@ || name == "bun"@ {
        Some(v_prefixed(output))
    } else if name == "go"@ {
        match go_version(ws) {
            Some(v) => Some(seq!['v'] + v),
            None => None,
        }
    } else if name == "ruby"@ {
        if ws.len() >= 2 { Some(seq!['v'] + before_p(ws[1])) } else { None }
    } else {
        None
    }
}

fn v_plus(cs: &Vec<char>) -> (r: String)
    ensures
        r@ == seq!['v'] + cs@,
{
    let mut out: Vec<char> = Vec::new();
    out.push('v');
    let mut i: usize = 0;
    while i < cs.len()
        invariant
            i <= cs.len(),
            out@ == seq!['v'] + cs@.take(i as int),
        decreases cs.len() - i,
    {
        out.push(cs[i]);
        i = i + 1;
        assert(cs@.take(i as int) =~= cs@.take((i - 1) as int).push(cs@[i - 1]));
    }
    assert(cs@.take(cs.len() as int) =~= cs@);
    string_from_chars(&out)
}

/// Extracts a `v`-prefixed version from a toolchain's version output.
pub fn parse_version(name: &str, output: &str) -> (r: Option<String>)
    ensures
        match r {
            Some(v) => parse_version_spec(name@, output@) == Some(v@),
            None => parse_version_spec(name@, output@) is None,
        },
{
    let cs = chars_of(output);
    let ws = split_whitespace(cs.as_slice());
    if str_eq(name, "rust") || str_eq(name, "python") {
        if ws.len() >= 2 {
            return Some(v_plus(&ws[1]));
        }
        return None;
    }
    if str_eq(name, "node") || str_eq(name, "bun") {
        return Some(ensure_v_prefix(output));
    }
    if str_eq(name, "go") {
        let mut i: usize = 0;
        assert(words(cs@).skip(0) =~= words(cs@));
        proof {
            reveal_strlit("go");
        }
        while i < ws.len()
            invariant
                i <= ws.len(),
                ws@.len() == words(cs@).len(),
                cs@ == output@,
                forall|k: int| 0 <= k < ws@.len() ==> (#[trigger] ws@[k])@ == words(cs@)[k],
                go_version(words(cs@).skip(i as int)) == go_version(words(cs@)),
                name@ == "go"@,
                !(name@ == "rust"@ || name@ == "python"@),
                !(name@ == "node"@ || name@ == "bun"@),
            decreases ws.len() - i,
        {
            let w = &ws[i];
            proof {
                reveal_strlit("go");
            }
            assert(words(cs@).skip(i as int)[0] == w@);
            assert(words(cs@).skip(i as int).drop_first() =~= words(cs@).skip(i + 1));
            if w.len() > 2 && w[0] == 'g' && w[1] == 'o' && '0' <= w[2] && w[2] <= '9' {
                assert(w@.take(2) =~= "go"@);
                let mut v: Vec<char> = Vec::new();
                let mut k: usize = 2;
                while k < w.len()
                    invariant
                        2 <= k <= w.len(),
                        v@ == w@.subrange(2, k as int),
                    decreases w.len() - k,
                {
                    v.push(w[k]);
                    k = k + 1;
                    assert(v@ =~= w@.subrange(2, k as int));
                }
                assert(v@ =~= w@.skip(2));
                return Some(v_plus(&v));
            }
            proof {
                if has_prefix(w@, "go"@) && w@.len() > 2 {
                    assert(w@.take(2)[0] == w@[0]);
                    assert(w@.take(2)[1] == w@[1]);
                }
            }
            i = i + 1;
        }
        assert(words(cs@).skip(ws.len() as int) =~= Seq::<Seq<char>>::empty());
        return None;
    }
    if str_eq(name, "ruby") {
        if ws.len() >= 2 {
            let t = &ws[1];
            let mut v: Vec<char> = Vec::new();
            let mut k: usize = 0;
            assert(t@.skip(0) =~= t@);
            assert(v@ + before_p(t@) =~= before_p(t@));
            while k < t.len() && t[k] != 'p'
                invariant
                    k <= t.len(),
                    v@ == t@.take(k as int),
                    before_p(t@) == v@ + before_p(t@.skip(k as int)),
                decreases t.len() - k,
            {
                assert(t@.skip(k as int).drop_first() =~= t@.skip(k + 1));
                v.push(t[k]);
                k = k + 1;
                assert(v@ =~= t@.take(k as int));
                assert(before_p(t@) =~= v@ + before_p(t@.skip(k as int)));
            }
            proof {
                if k < t.len() {
                    assert(t@.skip(k as int)[0] == 'p');
                } else {
                    assert(t@.skip(k as int) =~= Seq::<char>::empty());
                }
                assert(before_p(t@) =~= v@);
            }
            return Some(v_plus(&v));
        }
        return None;
    }
    None
}

/// The program and arguments that print a toolchain's version.
pub open spec fn version_command_spec(name: Seq<char>) -> Option<(Seq<char>, Seq<char>)> {
    if name == "rust"@ {
        Some(("rustc"@, "--version"@))
    } else if name == "node"@ {
        Some(("node"@, "--version"@))
    } else if name == "go"@ {
        Some(("go"@, "version"@))
    } else if name == "python"@ {
        Some(("python3"@, "--version"@))
    } else if name == "ruby"@ {
        Some(("ruby"@, "--version"@))
    } else if name == "bun"@ {
        Some(("bun"@, "--version"@))
    } else {
        None
    }
}

/// The command (program and its single argument) that prints a toolchain's version.
pub fn version_command(name: &str) -> (r: Option<(&'static str, Vec<&'static str>)>)
    ensures
        match r {
            Some((c, a)) => a@.len() == 1 && version_command_spec(name@) == Some((c@, a@[0]@)),
            None => version_command_spec(name@) is None,
        },
{
    if str_eq(name, "rust") {
        Some(("rustc", vec!["--version"]))
    } else if str_eq(name, "node") {
        Some(("node", vec!["--version"]))
    } else if str_eq(name, "go") {
        Some(("go", vec!["version"]))
    } else if str_eq(name, "python") {
        Some(("python3", vec!["--version"]))
    } else if str_eq(name, "ruby") {
        Some(("ruby", vec!["--version"]))
    } else if str_eq(name, "bun") {
        Some(("bun", vec!["--version"]))
    } else {
        None
    }
}

/// The version named by a `.node-version` file's content: its trimmed text,
/// `v`-prefixed, unless empty or a path-like alias containing `/`.
pub open spec fn node_version_spec(content: Seq<char>) -> Option<Seq<char>> {
    let t = trim(content);
    if t.len() == 0 || t.contains('/') {
        None
    } else {
        Some(v_prefixed(t))
    }
}

/// Reads the version named by a `.node-version` file's content.
pub fn node_version_from_file(content: &str) -> (r: Option<String>)
    ensures
        match r {
            Some(v) => node_version_spec(content@) == Some(v@),
            None => node_version_spec(content@) is None,
        },
{
    let cs = chars_of(content);
    let t = trim_chars(cs.as_slice());
    if t.len() == 0 {
        return None;
    }
    let mut i: usize = 0;
    while i < t.len()
        invariant
            i <= t.len(),
            t@ == trim(content@),
            t@.len() > 0,
            forall|k: int| 0 <= k < i ==> t@[k] != '/',
        decreases t.len() - i,
    {
        if t[i] == '/' {
            assert(t@[i as int] == '/');
            assert(t@.contains('/'));
            return None;
        }
        i = i + 1;
    }
    let ts = string_from_chars(&t);
    Some(ensure_v_prefix(ts.as_str()))
}

/// A detected toolchain with its version.
#[derive(Debug, Clone, PartialEq, Eq)]
pub struct ToolchainInfo {
    /// Toolchain name (e.g. `rust`).
    pub name: &'static str,
    /// Version string (e.g. `v1.82.0`).
    pub version: String,
}

/// The version shown for toolchain `name`: for node, the one named by a
/// `.node-version` file (`node_version_file` is its content, when read);
/// otherwise the one parsed from the trimmed output of the version command
/// (`version_output`, when it ran and succeeded).
pub open spec fn version_spec(
    name: Seq<char>,
    node_version_file: Option<Seq<char>>,
    version_output: Option<Seq<char>>,
) -> Option<Seq<char>> {
    let from_file = if name == "node"@ {
        match node_version_file {
            Some(c) => node_version_spec(c),
            None => None,
        }
    } else {
        None
    };
    match from_file {
        Some(v) => Some(v),
        None => match version_output {
            Some(o) => parse_version_spec(name, trim(o)),
            None => None,
        },
    }
}

/// Detects the toolchain of a directory and its version, given the marker
/// files present, the `.node-version` content and the version command's
/// output (each when available).
pub fn detect(present: &[String], node_version_file: Option<&str>, version_output: Option<&str>) -> (r: Option<
    ToolchainInfo,
>)
    ensures
        match detect_toolchain_spec(present@, 0) {
            None => r is None,
            Some(n) => match version_spec(
                n,
                match node_version_file {
                    Some(c) => Some(c@),
                    None => None,
                },
                match version_output {
                    Some(o) => Some(o@),
                    None => None,
                },
            ) {
                Some(v) => r matches Some(info) && info.name@ == n && info.version@ == v,
                None => r is None,
            },
        },
{
    let name = match detect_toolchain(present) {
        Some(n) => n,
        None => return None,
    };
    proof {
        reveal_strlit("node");
    }
    if str_eq(name, "node") {
        if let Some(c) = node_version_file {
            if let Some(v) = node_version_from_file(c) {
                return Some(ToolchainInfo { name, version: v });
            }
        }
    }
    let out = match version_output {
        Some(o) => o,
        None => return None,
    };
    let cs = chars_of(out);
    let t = trim_chars(cs.as_slice());
    let ts = string_from_chars(&t);
    match parse_version(name, ts.as_str()) {
        Some(v) => Some(ToolchainInfo { name, version: v }),
        None => None,
    }
}

/// Displays the detected language toolchain with its version.
#[derive(Debug, Default)]
pub struct ToolchainModule;

impl ToolchainModule {
    /// Creates a new `ToolchainModule`.
    pub fn new() -> Self {
        ToolchainModule
    }

    /// Module name for identification.
    pub fn name(&self) -> (r: &'static str)
        ensures
            r@ == "toolchain"@,
    {
        "toolchain"
    }

    /// The toolchain module is slow (it runs the toolchain).
    pub fn speed(&self) -> (r: ModuleSpeed)
        ensures
            r == ModuleSpeed::Slow,
    {
        ModuleSpeed::Slow
    }
}

} // verus!
