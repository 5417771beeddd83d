//! Session tracking for connected clients: each shell session's requests
//! carry increasing generations, and an older or repeated generation is stale.
//!
//! Times are milliseconds on a clock that the caller reads.
use std::collections::HashMap;

use vstd::prelude::*;
use vstd::std_specs::hash::{group_hash_axioms, spec_hash_map_iter};
use vstd::std_specs::iter::IteratorSpec;

verus! {

broadcast use group_hash_axioms;

/// What the daemon remembers of one shell session.
#[derive(Debug, Clone, Copy, PartialEq, Eq, Structural)]
pub struct Session {
    /// The newest generation accepted, if any.
    pub last_generation: Option<u64>,
    /// When the session was last active.
    pub last_seen: u64,
}

impl Session {
    /// A session seen for the first time at `now`.
    pub fn new(now: u64) -> (r: Self)
        ensures
            r == (Session { last_generation: None, last_seen: now }),
    {
        Session { last_generation: None, last_seen: now }
    }

    /// The newest generation accepted, if any.
    pub fn last_generation(&self) -> (r: Option<u64>)
        ensures
            r == self.last_generation,
    {
        self.last_generation
    }
}

/// The session stored under `id`, if any.
pub open spec fn session_of(m: Map<u64, Session>, id: u64) -> Option<Session> {
    if m.contains_key(id) {
        Some(m[id])
    } else {
        None
    }
}

/// Whether a request of `generation` is fresh for a session in state `s`:
/// the first one always is, later ones only when newer than the last accepted.
pub open spec fn fresh(s: Option<Session>, generation: u64) -> bool {
    !(s matches Some(x) && x.last_generation matches Some(last) && generation <= last)
}

/// Whether a session seen last at `last_seen` is still active at `now`.
pub open spec fn active(last_seen: u64, now: u64, ttl: u64) -> bool {
    !(now > last_seen && now - last_seen > ttl)
}

/// The sessions of `m` that are still active at `now`.
pub open spec fn active_sessions(m: Map<u64, Session>, now: u64, ttl: u64) -> Map<u64, Session> {
    m.restrict(m.dom().filter(|id: u64| active(m[id].last_seen, now, ttl)))
}

/// The sessions of connected clients, by session id.
pub struct SessionMap {
    sessions: HashMap<u64, Session>,
}

impl SessionMap {
    /// The sessions by id.
    pub closed spec fn entries(&self) -> Map<u64, Session> {
        self.sessions@
    }

    /// The map holds finitely many sessions.
    pub open spec fn wf(&self) -> bool {
        self.entries().dom().finite()
    }

    /// An empty map.
    pub fn new() -> (r: Self)
        ensures
            r.wf(),
            r.entries() == Map::<u64, Session>::empty(),
    {
        SessionMap { sessions: HashMap::new() }
    }

    /// Number of sessions.
    pub fn len(&self) -> (r: usize)
        ensures
            r == self.entries().len(),
    {
        self.sessions.len()
    }

    /// The session `id`, if known.
    pub fn get(&self, id: u64) -> (r: Option<Session>)
        ensures
            r == session_of(self.entries(), id),
    {
        match self.sessions.get(&id) {
            Some(s) => Some(*s),
            None => None,
        }
    }

    /// The session `id`, created (first seen at `now`) when unknown.
    pub fn get_or_create(&mut self, id: u64, now: u64) -> (r: Session)
        requires
            old(self).wf(),
        ensures
            final(self).wf(),
            r == match session_of(old(self).entries(), id) {
                Some(s) => s,
                None => Session { last_generation: None, last_seen: now },
            },
            final(self).entries() == old(self).entries().insert(id, r),
    {
        match self.sessions.get(&id) {
            Some(s) => {
                let s = *s;
                proof {
                    assert(self.entries().insert(id, s) =~= self.entries());
                }
                s
            },
            None => {
                let s = Session::new(now);
                self.sessions.insert(id, s);
                s
            },
        }
    }

    /// Accepts a request of `generation` for session `id` at `now` when it is
    /// newer than the session's last accepted one (or the session's first),
    /// recording it; a stale request is rejected and changes nothing but
    /// creating the session when it was unknown.
    pub fn check_generation(&mut self, id: u64, generation: u64, now: u64) -> (r: bool)
        requires
            old(self).wf(),
        ensures
            final(self).wf(),
            r == fresh(session_of(old(self).entries(), id), generation),
            session_of(final(self).entries(), id) == Some(
                if r {
                    Session { last_generation: Some(generation), last_seen: now }
                } else {
                    session_of(old(self).entries(), id)->0
                },
            ),
            forall|o: u64| o != id ==> session_of(final(self).entries(), o) == session_of(old(self).entries(), o),
    {
        let s = self.get_or_create(id, now);
        let stale = match s.last_generation {
            Some(last) => generation <= last,
            None => false,
        };
        if stale {
            return false;
        }
        self.sessions.insert(id, Session { last_generation: Some(generation), last_seen: now });
        true
    }

    /// Forgets the sessions inactive for longer than `ttl` at `now`, and
    /// returns how many were forgotten.
    pub fn prune_stale(&mut self, ttl: u64, now: u64) -> (r: usize)
        requires
            old(self).wf(),
        ensures
            final(self).wf(),
            final(self).entries() == active_sessions(old(self).entries(), now, ttl),
            r == old(self).entries().len() - final(self).entries().len(),
    {
        let ghost m = self.entries();
        let before = self.sessions.len();
        let mut kept: HashMap<u64, Session> = HashMap::new();
        let ghost sq = spec_hash_map_iter(&self.sessions).remaining();
        for pair in it: self.sessions.iter()
            invariant
                m == self.entries(),
                it.seq() == sq,
                forall|j: int|
                    0 <= j < sq.len() ==> m.contains_key(*(#[trigger] sq[j]).0) && m[*sq[j].0] == *sq[j].1,
                forall|k: u64| #[trigger] m.contains_key(k) ==> sq.contains((&k, &m[k])),
                forall|k: u64| #[trigger] kept@.contains_key(k) ==> m.contains_key(k) && active(m[k].last_seen, now, ttl)
                    && kept@[k] == m[k],
                forall|j: int|
                    0 <= j < it.index() && active((*sq[j].1).last_seen, now, ttl) ==> kept@.contains_key(
                        *(#[trigger] sq[j]).0,
                    ),
        {
            let (id, session) = pair;
            if !(now > session.last_seen && now - session.last_seen > ttl) {
                kept.insert(*id, *session);
            }
        }
        proof {
            assert forall|k: u64| #[trigger] m.contains_key(k) && active(m[k].last_seen, now, ttl) implies kept@.contains_key(k) by {
                assert(sq.contains((&k, &m[k])));
                let j = choose|j: int| 0 <= j < sq.len() && sq[j] == (&k, &m[k]);
                assert(*sq[j].0 == k);
            }
            assert(kept@ =~= active_sessions(m, now, ttl));
            assert(kept@.dom().subset_of(m.dom()));
            vstd::set_lib::lemma_len_subset(kept@.dom(), m.dom());
        }
        self.sessions = kept;
        before - self.sessions.len()
    }
}


/// Once a generation is accepted for a session, a later request is accepted
/// exactly when its generation is newer.
pub proof fn lemma_accepted_then_only_newer(s: Option<Session>, g: u64, now: u64, g2: u64)
    requires
        fresh(s, g),
    ensures
        fresh(Some(Session { last_generation: Some(g), last_seen: now }), g2) <==> g2 > g,
{
}

/// A session's last accepted generation never decreases: a request either
/// raises it or leaves the session as it was.
pub proof fn lemma_generation_never_decreases(s: Session, g: u64, now: u64)
    ensures
        s.last_generation matches Some(last) ==> (if fresh(Some(s), g) {
            Session { last_generation: Some(g), last_seen: now }
        } else {
            s
        }).last_generation matches Some(next) && next >= last,
{
}

/// Once a session has accepted generation `g`, a request of that session
/// with generation `g2 <= g`, while the session is still active, is stale:
/// it is refused and the session stays as it was.
pub proof fn lemma_stale_request_refused(m: Map<u64, Session>, id: u64, g: u64, g2: u64, now: u64, ttl: u64)
    requires
        session_of(m, id) matches Some(s) && s.last_generation == Some(g) && active(s.last_seen, now, ttl),
        g2 <= g,
    ensures
        !fresh(session_of(active_sessions(m, now, ttl), id), g2),
        session_of(active_sessions(m, now, ttl), id) == session_of(m, id),
{
    assert(m.dom().filter(|k: u64| active(m[k].last_seen, now, ttl)).contains(id));
}

} // verus!
