//! Daemon metrics: counters of what the daemon has done, reported by
//! `capsule daemon status`. Counters wrap around on overflow.
use vstd::prelude::*;

use super::SlowWorkClaim;

verus! {

/// `c` advanced by `n`, wrapping around past `u64::MAX`.
pub open spec fn counter_add(c: u64, n: u64) -> u64 {
    if c + n > u64::MAX {
        (c + n - 0x1_0000_0000_0000_0000) as u64
    } else {
        (c + n) as u64
    }
}

/// Advances counter `c` by `n`, wrapping around past `u64::MAX`.
pub fn bump(c: u64, n: u64) -> (r: u64)
    ensures
        r == counter_add(c, n),
{
    c.wrapping_add(n)
}

/// Counters of the daemon's work since it started.
#[derive(Debug, Clone, Copy, PartialEq, Eq, Structural)]
pub struct DaemonStats {
    /// Requests served from cached slow results.
    pub cache_hits: u64,
    /// Requests with nothing cached.
    pub cache_misses: u64,
    /// Cached results evicted to make room.
    pub cache_evictions: u64,
    /// Requests that joined a slow computation already in flight.
    pub inflight_coalesces: u64,
    /// Requests received.
    pub requests_total: u64,
    /// Requests refused for a stale generation.
    pub stale_discards: u64,
    /// Slow computations started.
    pub slow_computes_started: u64,
    /// Total time of slow computations, in microseconds.
    pub slow_compute_duration_us: u64,
    /// Git status queries that ran out of time.
    pub git_timeouts: u64,
    /// Custom module detections that ran out of time.
    pub custom_module_timeouts: u64,
    /// Idle sessions forgotten.
    pub sessions_pruned: u64,
    /// Connections accepted.
    pub connections_total: u64,
    /// Connections open.
    pub connections_active: u64,
    /// Configuration reloads.
    pub config_reloads: u64,
    /// Configuration reloads that failed.
    pub config_reload_errors: u64,
    /// When the daemon started, in milliseconds since the Unix epoch.
    pub started_at_ms: u64,
    /// The daemon's process id.
    pub pid: u32,
}

impl DaemonStats {
    /// All counters at zero, for the daemon process `pid` started at `started_at_ms`.
    pub fn new(pid: u32, started_at_ms: u64) -> (r: Self)
        ensures
            r == (DaemonStats {
                cache_hits: 0,
                cache_misses: 0,
                cache_evictions: 0,
                inflight_coalesces: 0,
                requests_total: 0,
                stale_discards: 0,
                slow_computes_started: 0,
                slow_compute_duration_us: 0,
                git_timeouts: 0,
                custom_module_timeouts: 0,
                sessions_pruned: 0,
                connections_total: 0,
                connections_active: 0,
                config_reloads: 0,
                config_reload_errors: 0,
                started_at_ms,
                pid,
            }),
    {
        DaemonStats {
            cache_hits: 0,
            cache_misses: 0,
            cache_evictions: 0,
            inflight_coalesces: 0,
            requests_total: 0,
            stale_discards: 0,
            slow_computes_started: 0,
            slow_compute_duration_us: 0,
            git_timeouts: 0,
            custom_module_timeouts: 0,
            sessions_pruned: 0,
            connections_total: 0,
            connections_active: 0,
            config_reloads: 0,
            config_reload_errors: 0,
            started_at_ms,
            pid,
        }
    }
    /// Counts a request's claim of its slow results: a cache hit or miss, a
    /// join of a computation already in flight, or the start of one.
    pub fn record_claim(&mut self, claim: &SlowWorkClaim)
        ensures
            *final(self) == (DaemonStats {
                cache_hits: if claim is Cached {
                    counter_add(old(self).cache_hits, 1)
                } else {
                    old(self).cache_hits
                },
                cache_misses: if claim is Pending {
                    counter_add(old(self).cache_misses, 1)
                } else {
                    old(self).cache_misses
                },
                inflight_coalesces: if claim.starts() {
                    old(self).inflight_coalesces
                } else {
                    counter_add(old(self).inflight_coalesces, 1)
                },
                slow_computes_started: if claim.starts() {
                    counter_add(old(self).slow_computes_started, 1)
                } else {
                    old(self).slow_computes_started
                },
                ..*old(self)
            }),
    {
        let starts = match claim {
            SlowWorkClaim::Cached { should_start, .. } => {
                self.cache_hits = bump(self.cache_hits, 1);
                *should_start
            },
            SlowWorkClaim::Pending { should_start } => {
                self.cache_misses = bump(self.cache_misses, 1);
                *should_start
            },
        };
        if starts {
            self.slow_computes_started = bump(self.slow_computes_started, 1);
        } else {
            self.inflight_coalesces = bump(self.inflight_coalesces, 1);
        }
    }
}

/// How the git query of one request ended.
#[derive(Debug, Clone, PartialEq, Eq)]
pub enum GitAnswer {
    /// Git is disabled: nothing was asked.
    NotAsked,
    /// The query answered in time, with the rendered segment if any.
    Answered(Option<String>),
    /// The query did not answer before the deadline.
    TimedOut,
    /// The query ended without an answer.
    Lost,
}

/// Whether a request asks git at all: only when the git module is enabled.
pub fn asks_git(config: &crate::config::Config) -> (r: bool)
    ensures
        r == !config.git.disabled,
{
    !config.git.disabled
}

/// The git segment of the slow result: what the query answered in time, and
/// nothing otherwise. A query that ran out of time is counted.
pub fn git_segment(answer: GitAnswer, stats: &mut DaemonStats) -> (r: Option<String>)
    ensures
        match answer {
            GitAnswer::Answered(x) => r == x,
            _ => r is None,
        },
        answer is TimedOut ==> *final(stats) == (DaemonStats {
            git_timeouts: counter_add(old(stats).git_timeouts, 1),
            ..*old(stats)
        }),
        !(answer is TimedOut) ==> *final(stats) == *old(stats),
{
    match answer {
        GitAnswer::Answered(x) => x,
        GitAnswer::TimedOut => {
            stats.git_timeouts = bump(stats.git_timeouts, 1);
            None
        },
        _ => None,
    }
}

} // verus!
