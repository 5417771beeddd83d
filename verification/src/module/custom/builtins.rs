//! Built-in toolchain module definitions.
use vstd::prelude::*;

use crate::config::{
    Arbitration, ModuleDef, ModuleSlot, ModuleWhen, RegexPattern, SourceDef, StyleConfig,
};
use crate::render::style::Color;

verus! {

/// The arbitration group shared by the JavaScript runtimes.
pub const JS_RUNTIME_ARBITRATION_GROUP: &'static str = "node.js";

/// Bun wins over Node within the JavaScript runtime group.
pub const BUN_ARBITRATION_PRIORITY: u32 = 10;

/// Node's priority within the JavaScript runtime group.
pub const NODE_ARBITRATION_PRIORITY: u32 = 20;

/// The character views of a list of strings.
pub open spec fn strs(v: Seq<String>) -> Seq<Seq<char>> {
    Seq::new(v.len(), |i: int| v[i]@)
}

/// A source reading `command` (program and one argument) with `regex`.
pub open spec fn is_command_source(d: SourceDef, prog: Seq<char>, arg: Seq<char>, regex: Seq<char>) -> bool {
    &&& d.name@ == "value"@
    &&& d.env is None
    &&& d.file is None
    &&& d.command matches Some(args) && strs(args@) == seq![prog, arg]
    &&& d.regex matches Some(p) && p.text() == regex
}

/// A source reading the file `path` in the working directory, without regex.
pub open spec fn is_file_source(d: SourceDef, path: Seq<char>) -> bool {
    &&& d.name@ == "value"@
    &&& d.env is None
    &&& d.file matches Some(f) && f@ == path
    &&& d.command is None
    &&& d.regex is None
}

/// A built-in toolchain module: `name`, triggered by the marker files
/// `files`, shown as `v{value}` after `via`, in `color`, on line 1.
pub open spec fn is_toolchain_def(
    d: ModuleDef,
    name: Seq<char>,
    files: Seq<Seq<char>>,
    icon: char,
    color: Color,
) -> bool {
    &&& d.name@ == name
    &&& strs(d.when.files@) == files
    &&& d.when.env@.len() == 0
    &&& d.format@ == "v{value}"@
    &&& d.icon matches Some(g) && g@ == seq![icon]
    &&& d.style == (StyleConfig { fg: Some(color), bold: None, dimmed: None })
    &&& d.connector matches Some(c) && c@ == "via"@
    &&& d.slot == ModuleSlot::Line1
}

/// Membership in the JavaScript runtime arbitration group with `priority`.
pub open spec fn in_js_group(d: ModuleDef, priority: u32) -> bool {
    d.arbitration matches Some(a) && a.group@ == "node.js"@ && a.priority == priority
}

fn owned(s: &str) -> (r: String)
    ensures
        r@ == s@,
{
    s.to_owned()
}

fn glyph(c: char) -> (r: String)
    ensures
        r@ == seq![c],
{
    let mut s = String::new();
    crate::text::push_char(&mut s, c);
    s
}

fn command_source(prog: &str, arg: &str, regex: &str) -> (r: SourceDef)
    ensures
        is_command_source(r, prog@, arg@, regex@),
{
    let args = vec![owned(prog), owned(arg)];
    assert(strs(args@) =~= seq![prog@, arg@]);
    SourceDef {
        name: owned("value"),
        env: None,
        file: None,
        command: Some(args),
        regex: Some(RegexPattern::new_unchecked(owned(regex))),
    }
}

fn file_source(path: &str) -> (r: SourceDef)
    ensures
        is_file_source(r, path@),
{
    SourceDef { name: owned("value"), env: None, file: Some(owned(path)), command: None, regex: None }
}

fn toolchain_def(
    name: &str,
    files: Vec<String>,
    source: Vec<SourceDef>,
    icon: char,
    color: Color,
    arbitration: Option<Arbitration>,
) -> (r: ModuleDef)
    ensures
        is_toolchain_def(r, name@, strs(files@), icon, color),
        r.source == source,
        r.arbitration == arbitration,
{
    ModuleDef {
        name: owned(name),
        when: ModuleWhen { files, env: Vec::new() },
        source,
        format: owned("v{value}"),
        icon: Some(glyph(icon)),
        style: StyleConfig::fg(color),
        connector: Some(owned("via")),
        arbitration,
        slot: ModuleSlot::Line1,
    }
}

/// The built-in table: rust, bun, node, go, python and ruby, in that
/// order, with bun and node competing in the JavaScript runtime group.
pub open spec fn builtin_table(r: Seq<ModuleDef>) -> bool {
    &&& r.len() == 6
    &&& is_toolchain_def(r[0], "rust"@, seq!["Cargo.toml"@], '\u{f1617}', Color::Red)
    &&& r[0].source@.len() == 1
    &&& is_command_source(r[0].source@[0], "rustc"@, "--version"@, "rustc\\s+(\\S+)"@)
    &&& r[0].arbitration is None
    &&& is_toolchain_def(r[1], "bun"@, seq!["bun.lock"@, "bun.lockb"@, "bunfig.toml"@], '\u{e76f}', Color::Red)
    &&& r[1].source@.len() == 2
    &&& is_file_source(r[1].source@[0], ".bun-version"@)
    &&& is_command_source(r[1].source@[1], "bun"@, "--version"@, "(\\d[\\d.]*)"@)
    &&& in_js_group(r[1], BUN_ARBITRATION_PRIORITY)
    &&& is_toolchain_def(r[2], "node"@, seq!["package.json"@], '\u{e718}', Color::Green)
    &&& r[2].source@.len() == 2
    &&& is_file_source(r[2].source@[0], ".node-version"@)
    &&& is_command_source(r[2].source@[1], "node"@, "--version"@, "v?(\\d[\\d.]*)"@)
    &&& in_js_group(r[2], NODE_ARBITRATION_PRIORITY)
    &&& is_toolchain_def(r[3], "go"@, seq!["go.mod"@], '\u{e627}', Color::Cyan)
    &&& r[3].source@.len() == 1
    &&& is_command_source(r[3].source@[0], "go"@, "version"@, "go(\\d[\\d.]*)"@)
    &&& r[3].arbitration is None
    &&& is_toolchain_def(r[4], "python"@, seq!["pyproject.toml"@, "setup.py"@], '\u{e235}', Color::Yellow)
    &&& r[4].source@.len() == 1
    &&& is_command_source(r[4].source@[0], "python3"@, "--version"@, "Python\\s+(\\S+)"@)
    &&& r[4].arbitration is None
    &&& is_toolchain_def(r[5], "ruby"@, seq!["Gemfile"@], '\u{e791}', Color::Red)
    &&& r[5].source@.len() == 1
    &&& is_command_source(r[5].source@[0], "ruby"@, "--version"@, "ruby\\s+(\\d+\\.\\d+\\.\\d+)"@)
    &&& r[5].arbitration is None
}

/// Returns the built-in toolchain definitions: rust, bun, node, go, python
/// and ruby, in that order, with bun and node competing in one group.
pub fn builtin_module_defs() -> (r: Vec<ModuleDef>)
    ensures
        builtin_table(r@),
{
    let rust_files = vec![owned("Cargo.toml")];
    assert(strs(rust_files@) =~= seq!["Cargo.toml"@]);
    let rust = toolchain_def(
        "rust",
        rust_files,
        vec![command_source("rustc", "--version", "rustc\\s+(\\S+)")],
        '\u{f1617}',
        Color::Red,
        None,
    );
    let bun_files = vec![owned("bun.lock"), owned("bun.lockb"), owned("bunfig.toml")];
    assert(strs(bun_files@) =~= seq!["bun.lock"@, "bun.lockb"@, "bunfig.toml"@]);
    let bun = toolchain_def(
        "bun",
        bun_files,
        vec![file_source(".bun-version"), command_source("bun", "--version", "(\\d[\\d.]*)")],
        '\u{e76f}',
        Color::Red,
        Some(Arbitration { group: owned(JS_RUNTIME_ARBITRATION_GROUP), priority: BUN_ARBITRATION_PRIORITY }),
    );
    let node_files = vec![owned("package.json")];
    assert(strs(node_files@) =~= seq!["package.json"@]);
    let node = toolchain_def(
        "node",
        node_files,
        vec![file_source(".node-version"), command_source("node", "--version", "v?(\\d[\\d.]*)")],
        '\u{e718}',
        Color::Green,
        Some(Arbitration { group: owned(JS_RUNTIME_ARBITRATION_GROUP), priority: NODE_ARBITRATION_PRIORITY }),
    );
    let go_files = vec![owned("go.mod")];
    assert(strs(go_files@) =~= seq!["go.mod"@]);
    let go = toolchain_def(
        "go",
        go_files,
        vec![command_source("go", "version", "go(\\d[\\d.]*)")],
        '\u{e627}',
        Color::Cyan,
        None,
    );
    let python_files = vec![owned("pyproject.toml"), owned("setup.py")];
    assert(strs(python_files@) =~= seq!["pyproject.toml"@, "setup.py"@]);
    let python = toolchain_def(
        "python",
        python_files,
        vec![command_source("python3", "--version", "Python\\s+(\\S+)")],
        '\u{e235}',
        Color::Yellow,
        None,
    );
    let ruby_files = vec![owned("Gemfile")];
    assert(strs(ruby_files@) =~= seq!["Gemfile"@]);
    let ruby = toolchain_def(
        "ruby",
        ruby_files,
        vec![command_source("ruby", "--version", "ruby\\s+(\\d+\\.\\d+\\.\\d+)")],
        '\u{e791}',
        Color::Red,
        None,
    );
    vec![rust, bun, node, go, python, ruby]
}

/// The module definitions offered as presets (`capsule preset`): the
/// built-in toolchain modules.
pub fn preset_module_defs() -> (r: Vec<ModuleDef>)
    ensures
        builtin_table(r@),
{
    builtin_module_defs()
}

} // verus!
