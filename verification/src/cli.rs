//! The command-line surface of capsule: its commands, where the daemon keeps
//! its runtime files, and how the status command shows uptime.
use vstd::prelude::*;

use crate::path::{join_path, join_spec};
use crate::text::{decimal, push_decimal, string_from_chars};

verus! {

/// The parsed command line.
#[derive(Debug, Clone, PartialEq, Eq)]
pub struct Cli {
    /// The command to run.
    pub command: Command,
}

/// The commands of `capsule`.
#[derive(Debug, Clone, PartialEq, Eq)]
pub enum Command {
    /// Daemon management: run the daemon when no action is given.
    Daemon { action: Option<DaemonAction> },
    /// Connect to the daemon (coprocess relay).
    Connect,
    /// Output the shell initialization script.
    Init { shell: Shell },
    /// Output the preset module definitions as TOML.
    Preset,
}

/// Actions of `capsule daemon`.
#[derive(Debug, Clone, Copy, PartialEq, Eq, Structural)]
pub enum DaemonAction {
    /// Install the service definition and start the daemon service.
    Install,
    /// Stop the service and remove its definition.
    Uninstall,
    /// Show daemon metrics and status.
    Status { json: bool },
}

/// Shells with an integration script.
#[derive(Debug, Clone, Copy, PartialEq, Eq, Structural)]
pub enum Shell {
    /// zsh
    Zsh,
}

/// `~/.capsule`, the directory of the daemon's runtime files.
pub open spec fn capsule_dir_spec(home: Seq<char>) -> Seq<char> {
    join_spec(home, ".capsule"@)
}

/// The directory of the daemon's runtime files under `home`.
pub fn capsule_dir(home: &str) -> (r: String)
    ensures
        r@ == capsule_dir_spec(home@),
{
    join_path(home, ".capsule")
}

/// The daemon's socket: `~/.capsule/capsule.sock`.
pub fn socket_path(home: &str) -> (r: String)
    ensures
        r@ == join_spec(capsule_dir_spec(home@), "capsule.sock"@),
{
    let dir = capsule_dir(home);
    join_path(dir.as_str(), "capsule.sock")
}

/// The daemon's lock file: `~/.capsule/capsule.lock`.
pub fn lock_path(home: &str) -> (r: String)
    ensures
        r@ == join_spec(capsule_dir_spec(home@), "capsule.lock"@),
{
    let dir = capsule_dir(home);
    join_path(dir.as_str(), "capsule.lock")
}

/// The directory of the daemon's log: `$TMPDIR` when set, else `/tmp`.
pub fn log_dir(tmpdir: Option<String>) -> (r: String)
    ensures
        r@ == match tmpdir {
            Some(t) => t@,
            None => "/tmp"@,
        },
{
    match tmpdir {
        Some(t) => t,
        None => "/tmp".to_owned(),
    }
}

/// `n` and its unit letter.
pub open spec fn with_unit(n: nat, unit: char) -> Seq<char> {
    decimal(n).push(unit)
}

/// Uptime shown from the largest nonzero unit down to seconds, units
/// separated by spaces: `1d 2h 3m 4s`, `2h 0m 5s`, `3m 0s`, `7s`.
pub open spec fn uptime_text(secs: nat) -> Seq<char> {
    let days = secs / 86400;
    let hours = (secs % 86400) / 3600;
    let mins = (secs % 3600) / 60;
    let rem = secs % 60;
    if days > 0 {
        with_unit(days, 'd') + seq![' '] + with_unit(hours, 'h') + seq![' '] + with_unit(mins, 'm') + seq![' ']
            + with_unit(rem, 's')
    } else if hours > 0 {
        with_unit(hours, 'h') + seq![' '] + with_unit(mins, 'm') + seq![' '] + with_unit(rem, 's')
    } else if mins > 0 {
        with_unit(mins, 'm') + seq![' '] + with_unit(rem, 's')
    } else {
        with_unit(rem, 's')
    }
}

/// Formats the daemon's uptime in seconds.
pub fn format_uptime(secs: u64) -> (r: String)
    ensures
        r@ == uptime_text(secs as nat),
{
    let days = secs / 86400;
    let hours = (secs % 86400) / 3600;
    let mins = (secs % 3600) / 60;
    let rem = secs % 60;
    let mut out: Vec<char> = Vec::new();
    if days > 0 {
        push_decimal(&mut out, days);
        out.push('d');
        out.push(' ');
    }
    if days > 0 || hours > 0 {
        push_decimal(&mut out, hours);
        out.push('h');
        out.push(' ');
    }
    if days > 0 || hours > 0 || mins > 0 {
        push_decimal(&mut out, mins);
        out.push('m');
        out.push(' ');
    }
    push_decimal(&mut out, rem);
    out.push('s');
    assert(out@ =~= uptime_text(secs as nat));
    string_from_chars(&out)
}

} // verus!
