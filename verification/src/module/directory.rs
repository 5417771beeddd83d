//! Directory module — displays the current working directory.
//!
//! Inside a git repository the path is shown relative to the repository
//! root (the root itself by its folder name); elsewhere it is abbreviated
//! with `~` under the home directory.
use vstd::prelude::*;

use super::{Module, ModuleOutput, ModuleSpeed, RenderContext};
use crate::path::{
    file_name, file_name_spec, path_eq, paths_equal, strip_path_prefix, strip_path_prefix_spec,
};
use crate::text::{push_str_chars, string_from_chars};

verus! {

/// `cwd` with the home directory shown as `~`.
pub open spec fn abbreviate_home_spec(cwd: Seq<char>, home: Seq<char>) -> Seq<char> {
    if path_eq(cwd, home) {
        seq!['~']
    } else {
        match strip_path_prefix_spec(cwd, home) {
            Some(rest) => seq!['~', '/'] + rest,
            None => cwd,
        }
    }
}

/// The directory as displayed: relative to the repository root inside a
/// repository (the root's own folder name at the root), home-abbreviated otherwise.
pub open spec fn directory_text(cwd: Seq<char>, home: Seq<char>, git_root: Option<Seq<char>>) -> Seq<
    char,
> {
    match git_root {
        Some(root) => if path_eq(cwd, root) {
            match file_name_spec(root) {
                Some(n) => n,
                None => abbreviate_home_spec(cwd, home),
            }
        } else {
            match strip_path_prefix_spec(cwd, root) {
                Some(rel) => rel,
                None => abbreviate_home_spec(cwd, home),
            }
        },
        None => abbreviate_home_spec(cwd, home),
    }
}

/// The optional view of an optional string slice.
pub open spec fn opt_str_view(s: Option<&str>) -> Option<Seq<char>> {
    match s {
        Some(v) => Some(v@),
        None => None,
    }
}

/// Abbreviates `cwd` with `~` when it is the home directory or below it.
pub fn abbreviate_home(cwd: &str, home: &str) -> (r: String)
    ensures
        r@ == abbreviate_home_spec(cwd@, home@),
{
    if paths_equal(cwd, home) {
        let mut out: Vec<char> = Vec::new();
        out.push('~');
        return string_from_chars(&out);
    }
    match strip_path_prefix(cwd, home) {
        Some(suffix) => {
            let mut out: Vec<char> = Vec::new();
            out.push('~');
            out.push('/');
            push_str_chars(&mut out, suffix.as_str());
            string_from_chars(&out)
        },
        None => cwd.to_owned(),
    }
}

/// Formats the working directory for display.
pub fn format_directory(cwd: &str, home: &str, git_root: Option<&str>) -> (r: String)
    ensures
        r@ == directory_text(cwd@, home@, opt_str_view(git_root)),
{
    if let Some(repo_root) = git_root {
        if paths_equal(cwd, repo_root) {
            return match file_name(repo_root) {
                Some(n) => n,
                None => abbreviate_home(cwd, home),
            };
        }
        if let Some(relative) = strip_path_prefix(cwd, repo_root) {
            return relative;
        }
    }
    abbreviate_home(cwd, home)
}

/// Displays the current working directory.
#[derive(Debug, Default)]
pub struct DirectoryModule;

impl DirectoryModule {
    /// Creates a new `DirectoryModule`.
    pub fn new() -> Self {
        DirectoryModule
    }
}

impl crate::sealed::Sealed for DirectoryModule {}

impl Module for DirectoryModule {
    fn name(&self) -> (r: &'static str)
        ensures
            r@ == "directory"@,
    {
        "directory"
    }

    fn speed(&self) -> (r: ModuleSpeed)
        ensures
            r == ModuleSpeed::Fast,
    {
        ModuleSpeed::Fast
    }

    /// Always the formatted directory.
    fn render(&self, ctx: &RenderContext<'_>) -> (r: Option<ModuleOutput>)
        ensures
            r matches Some(o) && o.content@ == directory_text(
                ctx.cwd@,
                ctx.home_dir@,
                opt_str_view(ctx.git_root),
            ),
    {
        let content = format_directory(ctx.cwd, ctx.home_dir, ctx.git_root);
        Some(ModuleOutput { content })
    }
}

} // verus!
