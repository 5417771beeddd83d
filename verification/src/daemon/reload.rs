//! Hot reloading of the configuration: when to read the file again, and
//! what a reading changes.
use vstd::prelude::*;

use super::stats::{bump, counter_add, DaemonStats};
use super::SharedState;

verus! {

/// The configuration in use: the modification time of its file when it was
/// read (nanoseconds since the Unix epoch, when known) and its generation,
/// which cache keys carry.
#[derive(Debug, Clone, Copy, PartialEq, Eq, Structural)]
pub struct ConfigVersion {
    /// Modification time of the file when it was last read.
    pub modified_at: Option<u64>,
    /// Generation of the configuration in use.
    pub generation: u64,
}

impl ConfigVersion {
    /// The version of a configuration read at start-up.
    pub fn new(modified_at: Option<u64>) -> (r: Self)
        ensures
            r == (ConfigVersion { modified_at, generation: 0 }),
    {
        ConfigVersion { modified_at, generation: 0 }
    }

    /// Whether the file must be read again: its modification time is no
    /// longer the one it had when it was read.
    pub fn reload_needed(&self, observed: Option<u64>) -> (r: bool)
        ensures
            r == (observed != self.modified_at),
    {
        match (observed, self.modified_at) {
            (Some(a), Some(b)) => a != b,
            (None, None) => false,
            _ => true,
        }
    }

    /// Records a reading of the file at modification time `observed`. When a
    /// configuration was found the generation advances (saturating) and the
    /// result is `true`: the caller adopts the new configuration and clears
    /// the slow-result cache. When the file has gone, its time is forgotten
    /// and the configuration in use stays.
    pub fn record_reload(&mut self, observed: Option<u64>, found: bool) -> (r: bool)
        ensures
            r == found,
            found ==> *final(self) == (ConfigVersion {
                modified_at: observed,
                generation: if old(self).generation == u64::MAX { u64::MAX } else { (old(self).generation + 1) as u64 },
            }),
            !found ==> *final(self) == (ConfigVersion { modified_at: None, generation: old(self).generation }),
    {
        if found {
            self.modified_at = observed;
            self.generation = self.generation.saturating_add(1);
            true
        } else {
            self.modified_at = None;
            false
        }
    }
}

/// What reading the configuration file again gave.
#[derive(Debug, Clone, Copy, PartialEq, Eq, Structural)]
pub enum ReloadRead {
    /// A configuration was read.
    Found,
    /// The file is gone.
    Gone,
    /// The file could not be read or did not parse.
    Failed,
}

/// Applies a reading of the configuration file taken at modification time
/// `observed`. A configuration that was found advances the version (see
/// [`ConfigVersion::record_reload`]), empties the slow-result cache and counts
/// a reload; the result is `true` and the caller adopts that configuration.
/// A file that is gone only forgets its time. A reading that failed counts an
/// error and changes nothing else, so the configuration in use stays.
pub fn apply_reload(
    version: &mut ConfigVersion,
    state: &mut SharedState,
    stats: &mut DaemonStats,
    observed: Option<u64>,
    read: ReloadRead,
) -> (r: bool)
    requires
        old(state).wf(),
    ensures
        r == (read == ReloadRead::Found),
        final(state).wf(),
        final(state).sessions == old(state).sessions,
        final(state).inflight@ == old(state).inflight@,
        final(state).cache.max_size_spec() == old(state).cache.max_size_spec(),
        final(state).cache.ttl_spec() == old(state).cache.ttl_spec(),
        read == ReloadRead::Found ==> {
            &&& *final(version) == (ConfigVersion {
                modified_at: observed,
                generation: if old(version).generation == u64::MAX { u64::MAX } else { (old(version).generation + 1) as u64 },
            })
            &&& final(state).cache.view_entries().len() == 0
            &&& *final(stats) == (DaemonStats { config_reloads: counter_add(old(stats).config_reloads, 1), ..*old(stats) })
        },
        read == ReloadRead::Gone ==> {
            &&& *final(version) == (ConfigVersion { modified_at: None, generation: old(version).generation })
            &&& final(state).cache.view_entries() == old(state).cache.view_entries()
            &&& *final(stats) == *old(stats)
        },
        read == ReloadRead::Failed ==> {
            &&& *final(version) == *old(version)
            &&& final(state).cache.view_entries() == old(state).cache.view_entries()
            &&& *final(stats) == (DaemonStats {
                config_reload_errors: counter_add(old(stats).config_reload_errors, 1),
                ..*old(stats)
            })
        },
{
    match read {
        ReloadRead::Found => {
            version.record_reload(observed, true);
            state.cache.clear();
            stats.config_reloads = bump(stats.config_reloads, 1);
            true
        },
        ReloadRead::Gone => {
            version.record_reload(observed, false);
            false
        },
        ReloadRead::Failed => {
            stats.config_reload_errors = bump(stats.config_reload_errors, 1);
            false
        },
    }
}

} // verus!
