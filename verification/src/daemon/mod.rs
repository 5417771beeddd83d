//! Daemon state: the slow-result cache, client sessions, and prompt composition.
pub mod cache;
pub mod prompt;
pub mod reload;
pub mod request;
pub mod session;
pub mod stats;

use vstd::prelude::*;

use crate::config::Config;
use crate::module::custom::{opt_chars, CustomModuleInfo};
use crate::render::style::Style;
use crate::text::str_eq;
use cache::{after_lookup, expired, inserted, lemma_read_after_write, lookup_value, BoundedCache};
use prompt::SlowOutput;
use session::SessionMap;

verus! {

/// Keys that can be compared by their mathematical value.
pub trait KeyEq: View + Sized {
    /// Whether the two keys are equal.
    fn key_eq(&self, other: &Self) -> (r: bool)
        ensures
            r == (self@ == other@);
}

impl KeyEq for String {
    fn key_eq(&self, other: &Self) -> (r: bool) {
        str_eq(self.as_str(), other.as_str())
    }
}

/// The cache key of a slow-module result: the directory, the configuration
/// generation it was computed under, and a hash of the inputs it read.
#[derive(Debug, Clone, PartialEq, Eq)]
pub struct CacheKey {
    /// Working directory.
    pub cwd: String,
    /// Generation of the configuration in use.
    pub config_generation: u64,
    /// Hash of the environment values and file states the modules read.
    pub dep_hash: u64,
}

impl View for CacheKey {
    type V = (Seq<char>, u64, u64);

    open spec fn view(&self) -> (Seq<char>, u64, u64) {
        (self.cwd@, self.config_generation, self.dep_hash)
    }
}

impl CacheKey {
    /// Creates a cache key.
    pub fn new(cwd: String, config_generation: u64, dep_hash: u64) -> (r: Self)
        ensures
            r@ == (cwd@, config_generation, dep_hash),
    {
        CacheKey { cwd, config_generation, dep_hash }
    }
}

/// Copies a cache key.
pub fn copy_key(k: &CacheKey) -> (r: CacheKey)
    ensures
        r == *k,
{
    CacheKey { cwd: k.cwd.clone(), config_generation: k.config_generation, dep_hash: k.dep_hash }
}

impl KeyEq for CacheKey {
    fn key_eq(&self, other: &Self) -> (r: bool) {
        let same_cwd = str_eq(self.cwd.as_str(), other.cwd.as_str());
        same_cwd && self.config_generation == other.config_generation && self.dep_hash
            == other.dep_hash
    }
}

/// Where the daemon's listening socket comes from.
#[derive(Debug, Clone, PartialEq, Eq)]
pub enum ListenerSource {
    /// Bind a socket file at the path (standalone mode).
    Bind(String),
    /// Take the socket that launchd activated under the name.
    Launchd(String),
}

/// How the listener was obtained.
#[derive(Debug, Clone, PartialEq, Eq)]
pub enum ListenerMode {
    /// Bound to the socket file at the path.
    Bound(String),
    /// Handed over by the service manager.
    Activated,
}

impl ListenerSource {
    /// The mode this source yields: bound to its path, or activated.
    pub fn mode(&self) -> (r: ListenerMode)
        ensures
            match *self {
                ListenerSource::Bind(p) => r matches ListenerMode::Bound(q) && q@ == p@,
                ListenerSource::Launchd(_) => r == ListenerMode::Activated,
            },
    {
        match self {
            ListenerSource::Bind(path) => ListenerMode::Bound(path.as_str().to_owned()),
            ListenerSource::Launchd(_) => ListenerMode::Activated,
        }
    }
}

/// The configuration the daemon starts with, and the file it was read from
/// (watched for changes), when there is one.
pub struct ConfigSource {
    /// The configuration.
    pub config: Config,
    /// The file it came from.
    pub path: Option<String>,
}

impl ConfigSource {
    /// Pairs a configuration with its file.
    pub fn new(config: Config, path: Option<String>) -> (r: Self)
        ensures
            r.config == config,
            r.path == path,
    {
        ConfigSource { config, path }
    }
}

/// The most slow results the daemon keeps at once.
pub const CACHE_MAX_SIZE: usize = 1024;

/// The time to live of cached slow results: they do not expire, and are
/// revalidated in the background on every hit instead.
pub const CACHE_TTL_MS: u64 = u64::MAX;

/// A detected module as plain values.
pub open spec fn info_view(m: CustomModuleInfo) -> (Seq<char>, Seq<char>, Option<Seq<char>>, Style, Option<Seq<char>>) {
    (m.name@, m.value@, opt_chars(m.icon), m.style, opt_chars(m.connector))
}

/// Slow results as plain values: what they render.
pub open spec fn slow_view(s: SlowOutput) -> (
    Option<Seq<char>>,
    Seq<(Seq<char>, Seq<char>, Option<Seq<char>>, Style, Option<Seq<char>>)>,
) {
    (opt_chars(s.git), s.custom_modules@.map_values(|m: CustomModuleInfo| info_view(m)))
}

/// Two slow results hold the same git status and the same modules.
pub open spec fn same_slow(a: SlowOutput, b: SlowOutput) -> bool {
    a.git == b.git && a.custom_modules@ == b.custom_modules@
}

fn copy_opt_string(o: &Option<String>) -> (r: Option<String>)
    ensures
        r == *o,
{
    match o {
        Some(s) => Some(s.clone()),
        None => None,
    }
}

fn copy_info(m: &CustomModuleInfo) -> (r: CustomModuleInfo)
    ensures
        r == *m,
{
    CustomModuleInfo {
        name: m.name.clone(),
        value: m.value.clone(),
        icon: copy_opt_string(&m.icon),
        style: m.style,
        connector: copy_opt_string(&m.connector),
    }
}

/// Copies slow results.
pub fn copy_slow_output(s: &SlowOutput) -> (r: SlowOutput)
    ensures
        same_slow(r, *s),
{
    let mut modules: Vec<CustomModuleInfo> = Vec::new();
    let mut i: usize = 0;
    while i < s.custom_modules.len()
        invariant
            i <= s.custom_modules.len(),
            modules@ == s.custom_modules@.take(i as int),
        decreases s.custom_modules.len() - i,
    {
        modules.push(copy_info(&s.custom_modules[i]));
        assert(s.custom_modules@.take(i + 1) =~= s.custom_modules@.take(i as int).push(s.custom_modules@[i as int]));
        i = i + 1;
    }
    assert(s.custom_modules@.take(i as int) =~= s.custom_modules@);
    SlowOutput { git: copy_opt_string(&s.git), custom_modules: modules }
}

fn opt_text_eq(a: &Option<String>, b: &Option<String>) -> (r: bool)
    ensures
        r == (opt_chars(*a) == opt_chars(*b)),
{
    match (a, b) {
        (Some(x), Some(y)) => str_eq(x.as_str(), y.as_str()),
        (None, None) => true,
        _ => false,
    }
}

fn same_info(a: &CustomModuleInfo, b: &CustomModuleInfo) -> (r: bool)
    ensures
        r == (info_view(*a) == info_view(*b)),
{
    str_eq(a.name.as_str(), b.name.as_str()) && str_eq(a.value.as_str(), b.value.as_str()) && opt_text_eq(
        &a.icon,
        &b.icon,
    ) && a.style == b.style && opt_text_eq(&a.connector, &b.connector)
}

/// Whether two slow results render alike.
pub fn same_slow_output(a: &SlowOutput, b: &SlowOutput) -> (r: bool)
    ensures
        r == (slow_view(*a) == slow_view(*b)),
{
    let ghost va = slow_view(*a).1;
    let ghost vb = slow_view(*b).1;
    if !opt_text_eq(&a.git, &b.git) {
        return false;
    }
    if a.custom_modules.len() != b.custom_modules.len() {
        assert(va.len() != vb.len());
        return false;
    }
    let mut i: usize = 0;
    while i < a.custom_modules.len()
        invariant
            i <= a.custom_modules.len(),
            a.custom_modules.len() == b.custom_modules.len(),
            va == slow_view(*a).1,
            vb == slow_view(*b).1,
            forall|j: int| 0 <= j < i ==> #[trigger] va[j] == vb[j],
        decreases a.custom_modules.len() - i,
    {
        if !same_info(&a.custom_modules[i], &b.custom_modules[i]) {
            assert(va[i as int] != vb[i as int]);
            return false;
        }
        i = i + 1;
    }
    assert(va =~= vb);
    true
}

/// What a request learns of its slow results when it claims them.
#[derive(Debug)]
pub enum SlowWorkClaim {
    /// Results are cached: they are shown at once, and revalidated.
    Cached {
        /// The cached results.
        slow: SlowOutput,
        /// Whether this request starts the revalidation (no other request
        /// is computing the same key).
        should_start: bool,
    },
    /// Nothing is cached.
    Pending {
        /// Whether this request starts the computation.
        should_start: bool,
    },
}

impl SlowWorkClaim {
    /// Whether the claiming request starts the slow computation.
    pub open spec fn starts(self) -> bool {
        match self {
            SlowWorkClaim::Cached { should_start, .. } => should_start,
            SlowWorkClaim::Pending { should_start } => should_start,
        }
    }
}

/// The keys in flight after a claim of `k`, and whether the claim starts the
/// work: only when no computation of `k` is in flight.
pub open spec fn claim_inflight(
    inflight: Set<(Seq<char>, u64, u64)>,
    k: (Seq<char>, u64, u64),
) -> (bool, Set<(Seq<char>, u64, u64)>) {
    (!inflight.contains(k), inflight.insert(k))
}

/// The state that all connections of the daemon share: client sessions,
/// cached slow results, and the keys whose slow results are being computed.
pub struct SharedState {
    /// Client sessions.
    pub sessions: SessionMap,
    /// Slow results by cache key.
    pub cache: BoundedCache<CacheKey, SlowOutput>,
    /// Keys whose slow results are being computed.
    pub inflight: Vec<CacheKey>,
}

impl SharedState {
    /// The keys whose slow results are being computed.
    pub open spec fn inflight(&self) -> Set<(Seq<char>, u64, u64)> {
        self.inflight@.map_values(|k: CacheKey| k@).to_set()
    }

    /// The sessions and the cache are well formed, and no key is in flight twice.
    pub open spec fn wf(&self) -> bool {
        &&& self.sessions.wf()
        &&& self.cache.wf()
        &&& self.inflight_unique()
    }

    /// No key is in flight twice.
    pub open spec fn inflight_unique(&self) -> bool {
        forall|i: int, j: int| 0 <= i < j < self.inflight@.len() ==> self.inflight@[i]@ != self.inflight@[j]@
    }

    /// No sessions, an empty cache of [`CACHE_MAX_SIZE`] entries, and nothing
    /// in flight.
    pub fn new() -> (r: Self)
        ensures
            r.wf(),
            r.sessions.entries().len() == 0,
            r.cache.view_entries().len() == 0,
            r.cache.max_size_spec() == CACHE_MAX_SIZE,
            r.cache.ttl_spec() == CACHE_TTL_MS,
            r.inflight() == Set::<(Seq<char>, u64, u64)>::empty(),
    {
        let r = SharedState {
            sessions: SessionMap::new(),
            cache: BoundedCache::new(CACHE_MAX_SIZE, CACHE_TTL_MS),
            inflight: Vec::new(),
        };
        assert(r.inflight() =~= Set::<(Seq<char>, u64, u64)>::empty());
        r
    }

    /// Number of cached slow results.
    pub fn cache_len(&self) -> (r: usize)
        ensures
            r == self.cache.view_entries().len(),
    {
        self.cache.len()
    }

    /// Number of known sessions.
    pub fn session_len(&self) -> (r: usize)
        ensures
            r == self.sessions.entries().len(),
    {
        self.sessions.len()
    }

    fn inflight_index(&self, key: &CacheKey) -> (r: Option<usize>)
        ensures
            match r {
                Some(i) => i < self.inflight@.len() && self.inflight@[i as int]@ == key@,
                None => !self.inflight().contains(key@),
            },
    {
        let mut i: usize = 0;
        while i < self.inflight.len()
            invariant
                i <= self.inflight.len(),
                forall|j: int| 0 <= j < i ==> (#[trigger] self.inflight@[j])@ != key@,
            decreases self.inflight.len() - i,
        {
            if self.inflight[i].key_eq(key) {
                return Some(i);
            }
            i = i + 1;
        }
        proof {
            let mv = self.inflight@.map_values(|k: CacheKey| k@);
            if mv.contains(key@) {
                let j = choose|j: int| 0 <= j < mv.len() && #[trigger] mv[j] == key@;
                assert(self.inflight@[j]@ == key@);
            }
        }
        None
    }

    /// Marks `key` as in flight unless it already is; returns whether it was not.
    fn enter_inflight(&mut self, key: &CacheKey) -> (started: bool)
        requires
            old(self).wf(),
        ensures
            final(self).wf(),
            final(self).sessions == old(self).sessions,
            final(self).cache == old(self).cache,
            (started, final(self).inflight()) == claim_inflight(old(self).inflight(), key@),
    {
        match self.inflight_index(key) {
            Some(i) => {
                proof {
                    let mv = self.inflight@.map_values(|k: CacheKey| k@);
                    assert(mv[i as int] == key@);
                    assert(mv.contains(key@));
                    assert(self.inflight().insert(key@) =~= self.inflight());
                }
                false
            },
            None => {
                let ghost before = self.inflight@;
                self.inflight.push(copy_key(key));
                proof {
                    assert(self.inflight@ == before.push(*key));
                    assert(self.inflight@.map_values(|k: CacheKey| k@) =~= before.map_values(|k: CacheKey| k@).push(key@));
                    before.map_values(|k: CacheKey| k@).lemma_push_to_set_commute(key@);
                    assert(self.inflight() =~= old(self).inflight().insert(key@));
                    assert forall|a: int, b: int| 0 <= a < b < self.inflight@.len() implies self.inflight@[a]@ != self.inflight@[b]@ by {
                        if b == before.len() {
                            assert(before.map_values(|k: CacheKey| k@)[a] == before[a]@);
                        }
                    }
                }
                true
            },
        }
    }

    /// Takes `key` out of the keys in flight; returns whether it was there.
    fn leave_inflight(&mut self, key: &CacheKey) -> (was: bool)
        requires
            old(self).wf(),
        ensures
            final(self).wf(),
            final(self).sessions == old(self).sessions,
            final(self).cache == old(self).cache,
            was == old(self).inflight().contains(key@),
            final(self).inflight() == old(self).inflight().remove(key@),
    {
        match self.inflight_index(key) {
            None => {
                proof {
                    assert(self.inflight().remove(key@) =~= self.inflight());
                }
                false
            },
            Some(i) => {
                let ghost before = self.inflight@;
                let ghost mv = before.map_values(|k: CacheKey| k@);
                let _ = self.inflight.remove(i);
                proof {
                    assert(mv[i as int] == key@);
                    assert(mv.contains(key@));
                    let after = self.inflight@;
                    assert(after == before.remove(i as int));
                    let mv2 = after.map_values(|k: CacheKey| k@);
                    assert forall|x: (Seq<char>, u64, u64)| mv2.contains(x) <==> (mv.contains(x) && x != key@) by {
                        if mv2.contains(x) {
                            let j = choose|j: int| 0 <= j < mv2.len() && #[trigger] mv2[j] == x;
                            let j2 = if j < i { j } else { j + 1 };
                            assert(mv2[j] == mv[j2]);
                            assert(before[j2]@ != before[i as int]@);
                        }
                        if mv.contains(x) && x != key@ {
                            let j = choose|j: int| 0 <= j < mv.len() && #[trigger] mv[j] == x;
                            assert(j != i);
                            let j2 = if j < i { j } else { j - 1 };
                            assert(mv2[j2] == mv[j]);
                        }
                    }
                    assert(self.inflight() =~= old(self).inflight().remove(key@));
                    assert forall|a: int, b: int| 0 <= a < b < after.len() implies after[a]@ != after[b]@ by {
                        let a2 = if a < i { a } else { a + 1 };
                        let b2 = if b < i { b } else { b + 1 };
                        assert(after[a] == before[a2]);
                        assert(after[b] == before[b2]);
                    }
                }
                true
            },
        }
    }

    /// Claims the slow results of a request at time `now`. Without a key
    /// (its slow modules read environment variables or files) nothing is
    /// shared and the request computes them itself. With a key, the results
    /// cached under it are served when caching is enabled (and revalidated),
    /// and the request starts the computation only when no other request is
    /// already computing that key.
    pub fn claim_slow_work(&mut self, key: Option<&CacheKey>, cache_enabled: bool, now: u64) -> (r: SlowWorkClaim)
        requires
            old(self).wf(),
        ensures
            final(self).wf(),
            final(self).sessions == old(self).sessions,
            final(self).cache.max_size_spec() == old(self).cache.max_size_spec(),
            final(self).cache.ttl_spec() == old(self).cache.ttl_spec(),
            match key {
                None => {
                    &&& r == (SlowWorkClaim::Pending { should_start: true })
                    &&& final(self).cache.view_entries() == old(self).cache.view_entries()
                    &&& final(self).inflight() == old(self).inflight()
                },
                Some(k) => {
                    let e = old(self).cache.view_entries();
                    let ttl = old(self).cache.ttl_spec();
                    &&& (r.starts(), final(self).inflight()) == claim_inflight(old(self).inflight(), k@)
                    &&& final(self).cache.view_entries() == if cache_enabled {
                        after_lookup(e, k@, now, ttl)
                    } else {
                        e
                    }
                    &&& match (if cache_enabled { lookup_value(e, k@, now, ttl) } else { None }) {
                        Some(v) => r matches SlowWorkClaim::Cached { slow, .. } && same_slow(slow, v),
                        None => r is Pending,
                    }
                },
            },
    {
        match key {
            None => SlowWorkClaim::Pending { should_start: true },
            Some(k) => {
                let cached: Option<SlowOutput> = if cache_enabled {
                    match self.cache.get_at(k, now) {
                        Some(v) => Some(copy_slow_output(v)),
                        None => None,
                    }
                } else {
                    None
                };
                let should_start = self.enter_inflight(k);
                match cached {
                    Some(slow) => SlowWorkClaim::Cached { slow, should_start },
                    None => SlowWorkClaim::Pending { should_start },
                }
            },
        }
    }

    /// Records the end of a computation of the slow results under `key` at
    /// time `now`, `previous` being what was cached when it started. The key
    /// is no longer in flight, and results that changed replace the cached
    /// ones when caching is enabled. Returns whether the requests waiting on
    /// the key are to be given the new results: they changed, and the key was
    /// in flight.
    pub fn finish_slow_work(
        &mut self,
        key: &CacheKey,
        updated: SlowOutput,
        previous: Option<&SlowOutput>,
        cache_enabled: bool,
        now: u64,
    ) -> (notify: bool)
        requires
            old(self).wf(),
        ensures
            final(self).wf(),
            final(self).sessions == old(self).sessions,
            final(self).cache.max_size_spec() == old(self).cache.max_size_spec(),
            final(self).cache.ttl_spec() == old(self).cache.ttl_spec(),
            final(self).inflight() == old(self).inflight().remove(key@),
            ({
                let changed = match previous {
                    Some(p) => slow_view(*p) != slow_view(updated),
                    None => true,
                };
                &&& notify == (changed && old(self).inflight().contains(key@))
                &&& changed && cache_enabled ==> inserted(
                    old(self).cache.view_entries(),
                    final(self).cache.view_entries(),
                    key@,
                    updated,
                    now,
                    old(self).cache.max_size_spec(),
                )
                &&& !(changed && cache_enabled) ==> final(self).cache.view_entries() == old(self).cache.view_entries()
            }),
    {
        let was = self.leave_inflight(key);
        let changed = match previous {
            Some(p) => !same_slow_output(p, &updated),
            None => true,
        };
        if changed && cache_enabled {
            self.cache.insert_at(copy_key(key), updated, now);
        }
        changed && was
    }
}


/// Requests for one key share one computation: of two claims of a key with
/// no finished computation between them, the second starts none.
pub proof fn lemma_one_computation_per_key(inflight: Set<(Seq<char>, u64, u64)>, k: (Seq<char>, u64, u64))
    ensures
        !claim_inflight(claim_inflight(inflight, k).1, k).0,
{
}

/// Once the computation of a key has finished, the next claim of the key
/// starts another: every hit is revalidated.
pub proof fn lemma_finished_key_starts_again(inflight: Set<(Seq<char>, u64, u64)>, k: (Seq<char>, u64, u64))
    ensures
        claim_inflight(inflight.remove(k), k).0,
{
}

/// The results stored when a computation finishes are what a later claim of
/// the key serves, as long as they have not expired.
pub proof fn lemma_finished_results_served<V>(
    e: Seq<((Seq<char>, u64, u64), V, u64)>,
    e2: Seq<((Seq<char>, u64, u64), V, u64)>,
    k: (Seq<char>, u64, u64),
    v: V,
    t: u64,
    max: usize,
    now: u64,
    ttl: u64,
)
    requires
        cache::unique_keys(e),
        inserted(e, e2, k, v, t, max),
        !expired(t, now, ttl),
    ensures
        lookup_value(e2, k, now, ttl) == Some(v),
{
    lemma_read_after_write(e, e2, k, v, t, max, now, ttl);
}

/// The daemon's cached slow results never expire.
pub proof fn lemma_daemon_cache_never_expires(inserted_at: u64, now: u64)
    ensures
        !expired(inserted_at, now, CACHE_TTL_MS),
{
}

} // verus!
