//! Service definitions for running the daemon under launchd or systemd.
//!
//! Installing, loading and restarting the service is left to the caller;
//! this module writes the definition files' contents, names their paths,
//! and recognizes definitions that Nix manages.
pub mod launchd;
pub mod systemd;

use vstd::prelude::*;

use crate::path::{join_path, join_spec, parent_path, parent_spec, strip_path_prefix, strip_path_prefix_spec};
use crate::text::{chars_of, has_prefix};

verus! {

/// The outcome of installing the service.
#[derive(Debug, Clone, Copy, PartialEq, Eq, Structural)]
pub enum InstallOutcome {
    /// Definition files were written and the service started.
    Installed,
    /// Definitions were current but the running daemon was outdated.
    Restarted,
    /// Definitions were current and the daemon up to date.
    AlreadyCurrent,
}

/// The marker that Nix-generated service definitions carry.
pub const NIX_MANAGED_MARKER: &'static str = "CAPSULE_NIX_MANAGED";

/// Whether `path` lies in the Nix store (its components start with `/nix/store`).
pub open spec fn nix_store_path(path: Seq<char>) -> bool {
    strip_path_prefix_spec(path, "/nix/store"@) is Some
}

/// Whether `path` lies in the Nix store.
pub fn is_nix_store_path(path: &str) -> (r: bool)
    ensures
        r == nix_store_path(path@),
{
    strip_path_prefix(path, "/nix/store").is_some()
}

/// Whether `s` contains `needle` somewhere.
pub open spec fn contains_seq(s: Seq<char>, needle: Seq<char>) -> bool {
    exists|i: int| 0 <= i <= s.len() - needle.len() && #[trigger] s.subrange(i, i + needle.len()) == needle
}

/// Whether a service definition's content carries the Nix marker.
pub fn contains_nix_marker(content: &str) -> (r: bool)
    ensures
        r == contains_seq(content@, NIX_MANAGED_MARKER@),
{
    let s = chars_of(content);
    let m = chars_of(NIX_MANAGED_MARKER);
    if m.len() > s.len() {
        proof {
            assert forall|i: int| 0 <= i <= s@.len() - m@.len() implies #[trigger] s@.subrange(i, i + m@.len()) != m@ by {}
        }
        return false;
    }
    let mut i: usize = 0;
    let last = s.len() - m.len();
    while i <= last
        invariant
            m.len() <= s.len(),
            last == s.len() - m.len(),
            i <= last + 1,
            s@ == content@,
            m@ == NIX_MANAGED_MARKER@,
            forall|k: int| 0 <= k < i ==> #[trigger] s@.subrange(k, k + m@.len()) != m@,
        decreases s.len() - i,
    {
        let mut j: usize = 0;
        let mut same = true;
        assert(s@.subrange(i as int, i as int) =~= m@.take(0));
        while j < m.len()
            invariant
                j <= m.len(),
                i + m.len() <= s.len(),
                same == (s@.subrange(i as int, i + j) == m@.take(j as int)),
            decreases m.len() - j,
        {
            if same && s[i + j] != m[j] {
                same = false;
                assert(s@.subrange(i as int, i + j + 1)[j as int] != m@.take(j + 1)[j as int]);
            } else if same {
                assert(s@.subrange(i as int, i + j + 1) =~= s@.subrange(i as int, i + j).push(s@[i + j]));
                assert(m@.take(j + 1) =~= m@.take(j as int).push(m@[j as int]));
            } else {
                assert(s@.subrange(i as int, i + j + 1).take(j as int) =~= s@.subrange(i as int, i + j));
                assert(m@.take(j + 1).take(j as int) =~= m@.take(j as int));
            }
            j = j + 1;
        }
        assert(m@.take(m.len() as int) =~= m@);
        if same {
            return true;
        }
        i = i + 1;
    }
    proof {
        assert forall|k: int| 0 <= k <= s@.len() - m@.len() implies #[trigger] s@.subrange(k, k + m@.len()) != m@ by {}
    }
    false
}

/// Where a symbolic link at `definition` pointing to `target` leads: the
/// target itself when absolute, else the target joined onto the link's
/// directory (or the bare target when the link has none).
pub open spec fn link_target_spec(definition: Seq<char>, target: Seq<char>) -> Seq<char> {
    if target.len() > 0 && target[0] == '/' {
        target
    } else {
        match parent_spec(definition) {
            Some(dir) => join_spec(dir, target),
            None => target,
        }
    }
}

/// Resolves the target of a symbolic link at `definition` against the
/// link's directory.
pub fn link_target_path(definition: &str, target: &str) -> (r: String)
    ensures
        r@ == link_target_spec(definition@, target@),
{
    let t = chars_of(target);
    if t.len() > 0 && t[0] == '/' {
        return target.to_owned();
    }
    match parent_path(definition) {
        Some(dir) => join_path(dir.as_str(), target),
        None => target.to_owned(),
    }
}

/// Whether a service definition is managed declaratively by Nix: its content
/// carries the marker, or it lies in the Nix store itself, through the
/// target of the link it is, or once resolved to its canonical path.
/// `content`, `link_target` and `canonical` are what reading the file,
/// reading the link and canonicalizing the path gave, when they succeeded.
pub fn is_nix_managed_definition(
    path: &str,
    content: Option<&str>,
    link_target: Option<&str>,
    canonical: Option<&str>,
) -> (r: bool)
    ensures
        r == ((content matches Some(c) && contains_seq(c@, NIX_MANAGED_MARKER@)) || nix_store_path(path@)
            || (link_target matches Some(t) && nix_store_path(link_target_spec(path@, t@)))
            || (canonical matches Some(c) && nix_store_path(c@))),
{
    let marked = match content {
        Some(c) => contains_nix_marker(c),
        None => false,
    };
    if marked || is_nix_store_path(path) {
        return true;
    }
    let linked = match link_target {
        Some(t) => {
            let resolved = link_target_path(path, t);
            is_nix_store_path(resolved.as_str())
        },
        None => false,
    };
    if linked {
        return true;
    }
    match canonical {
        Some(c) => is_nix_store_path(c),
        None => false,
    }
}


/// What installing the service does, decided from what is installed.
#[derive(Debug, Clone, PartialEq, Eq)]
pub enum InstallStep {
    /// Refuse: Nix manages the service definition at this path.
    Refuse(String),
    /// The definitions are current and the daemon up to date: nothing to do.
    Keep,
    /// The definitions are current but the daemon runs another build: restart it.
    Restart,
    /// Write the definitions and load the service.
    Write,
}

/// Whether an installed definition file is current: it could be read and
/// holds exactly the generated text.
pub fn definition_current(existing: Option<&str>, generated: &str) -> (r: bool)
    ensures
        r == (existing matches Some(e) && e@ == generated@),
{
    match existing {
        Some(e) => crate::text::str_eq(e, generated),
        None => false,
    }
}

/// The step of an installation: refused when Nix manages a definition (at
/// `nix_managed`); when the definitions are current, a restart if the
/// running daemon is outdated and nothing otherwise; else writing them.
pub fn install_step(nix_managed: Option<&str>, definitions_current: bool, daemon_outdated: bool) -> (r: InstallStep)
    ensures
        match nix_managed {
            Some(p) => r matches InstallStep::Refuse(q) && q@ == p@,
            None => r == if !definitions_current {
                InstallStep::Write
            } else if daemon_outdated {
                InstallStep::Restart
            } else {
                InstallStep::Keep
            },
        },
{
    match nix_managed {
        Some(p) => InstallStep::Refuse(p.to_owned()),
        None => {
            if !definitions_current {
                InstallStep::Write
            } else if daemon_outdated {
                InstallStep::Restart
            } else {
                InstallStep::Keep
            }
        },
    }
}

impl InstallStep {
    /// The outcome that an installation taking this step reports once it
    /// succeeded; a refusal reports none.
    pub fn outcome(&self) -> (r: Option<InstallOutcome>)
        ensures
            match *self {
                InstallStep::Refuse(_) => r is None,
                InstallStep::Keep => r == Some(InstallOutcome::AlreadyCurrent),
                InstallStep::Restart => r == Some(InstallOutcome::Restarted),
                InstallStep::Write => r == Some(InstallOutcome::Installed),
            },
    {
        match self {
            InstallStep::Refuse(_) => None,
            InstallStep::Keep => Some(InstallOutcome::AlreadyCurrent),
            InstallStep::Restart => Some(InstallOutcome::Restarted),
            InstallStep::Write => Some(InstallOutcome::Installed),
        }
    }
}

/// The first candidate definition that Nix manages, in the order of the
/// candidates: `managed[i]` tells whether `paths[i]` is managed by Nix.
pub fn nix_managed_service_definition(paths: &[String], managed: &[bool]) -> (r: Option<String>)
    requires
        paths.len() == managed.len(),
    ensures
        match r {
            Some(p) => exists|i: int|
                0 <= i < paths.len() && managed[i] && p@ == paths[i]@ && forall|j: int|
                    0 <= j < i ==> !(#[trigger] managed[j]),
            None => forall|i: int| 0 <= i < managed.len() ==> !(#[trigger] managed[i]),
        },
{
    let mut i: usize = 0;
    while i < paths.len()
        invariant
            i <= paths.len(),
            paths.len() == managed.len(),
            forall|j: int| 0 <= j < i ==> !(#[trigger] managed[j]),
        decreases paths.len() - i,
    {
        if managed[i] {
            return Some(paths[i].as_str().to_owned());
        }
        i = i + 1;
    }
    None
}

} // verus!
