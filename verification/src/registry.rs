//! The authoritative table of live sessions, keyed by connection identifier
//! and enforcing nickname uniqueness among members.
//!
//! Every mutation is a single atomic operation of this type; callers never
//! reach into the table themselves.  Under a lock taken around each call,
//! the well-formedness invariant proved here is exactly the uniqueness
//! guarantee the server relies on.

use vstd::prelude::*;

use crate::session::{is_member, Session, SessionV, Stage};

verus! {

/// Why a registry mutation was refused.
#[derive(Clone, Copy, PartialEq, Eq, Structural, Debug)]
pub enum RegistryError {
    /// The requested nickname already belongs to a different live session.
    NameTaken,
}

/// The mathematical image of the registry: the live sessions in insertion
/// order, and the next connection identifier to hand out.
#[verifier::ext_equal]
pub struct RegistryV {
    pub sessions: Seq<SessionV>,
    pub next_id: u64,
}

/// Some session in `s` carries the identifier `id`.
pub open spec fn has_id(s: Seq<SessionV>, id: u64) -> bool {
    exists|i: int| 0 <= i < s.len() && s[i].id == id
}

/// The index of the session carrying `id` (meaningful when `has_id` holds
/// and identifiers are distinct).
pub open spec fn idx_of(s: Seq<SessionV>, id: u64) -> int {
    choose|i: int| 0 <= i < s.len() && s[i].id == id
}

/// The session carrying `id`.
pub open spec fn session_of(s: Seq<SessionV>, id: u64) -> SessionV {
    s[idx_of(s, id)]
}

/// Some member of `s` already answers to `nick`.
pub open spec fn nick_taken(s: Seq<SessionV>, nick: Seq<char>) -> bool {
    exists|i: int| 0 <= i < s.len() && is_member(s[i]) && s[i].nick == nick
}

/// Some member of `s` other than the session carrying `id` already answers
/// to `nick`.
pub open spec fn nick_taken_by_other(s: Seq<SessionV>, nick: Seq<char>, id: u64) -> bool {
    exists|i: int| 0 <= i < s.len() && is_member(s[i]) && s[i].nick == nick && s[i].id != id
}

/// Well-formedness of a session table: identifiers are distinct, members'
/// nicknames are distinct, and a session carries a nickname exactly when it
/// is a member.
pub open spec fn wf_sessions(s: Seq<SessionV>) -> bool {
    &&& forall|i: int, j: int|
        0 <= i < s.len() && 0 <= j < s.len() && i != j ==> s[i].id != s[j].id
    &&& forall|i: int, j: int|
        0 <= i < s.len() && 0 <= j < s.len() && i != j && is_member(s[i]) && is_member(s[j])
            ==> s[i].nick != s[j].nick
    &&& forall|i: int| 0 <= i < s.len() ==> (is_member(s[i]) <==> s[i].nick.len() > 0)
}

/// In a well-formed table, an index holding `id` is the unique one, so it
/// coincides with `idx_of`.
pub proof fn lemma_idx_of_unique(s: Seq<SessionV>, id: u64, i: int)
    requires
        wf_sessions(s),
        0 <= i < s.len(),
        s[i].id == id,
    ensures
        has_id(s, id),
        idx_of(s, id) == i,
        session_of(s, id) == s[i],
{
    assert(0 <= i < s.len() && s[i].id == id);
    let j = idx_of(s, id);
    assert(0 <= j < s.len() && s[j].id == id);
    if i != j {
        assert(s[i].id != s[j].id);
    }
}

/// The identifiers of the members of `s` other than the session carrying
/// `excluded_id`, in table order: the target set of a broadcast.
pub open spec fn targets_except(s: Seq<SessionV>, excluded_id: u64) -> Seq<u64>
    decreases s.len(),
{
    if s.len() == 0 {
        Seq::empty()
    } else {
        let rest = targets_except(s.drop_last(), excluded_id);
        if is_member(s.last()) && s.last().id != excluded_id {
            rest.push(s.last().id)
        } else {
            rest
        }
    }
}

/// The identifiers of all members of `s`, in table order.
pub open spec fn targets_all(s: Seq<SessionV>) -> Seq<u64>
    decreases s.len(),
{
    if s.len() == 0 {
        Seq::empty()
    } else {
        let rest = targets_all(s.drop_last());
        if is_member(s.last()) {
            rest.push(s.last().id)
        } else {
            rest
        }
    }
}

/// The authoritative, lock-guarded nickname table.  All fields are private:
/// the operations below are the only way to read or change membership.
pub struct Registry {
    sessions: Vec<Session>,
    next_id: u64,
}

impl View for Registry {
    type V = RegistryV;

    closed spec fn view(&self) -> RegistryV {
        RegistryV {
            sessions: Seq::new(self.sessions@.len(), |i: int| self.sessions@[i]@),
            next_id: self.next_id,
        }
    }
}

impl Registry {
    /// The registry invariant: a well-formed table whose identifiers were
    /// all handed out by `connect`.
    pub open spec fn wf(self) -> bool {
        &&& wf_sessions(self@.sessions)
        &&& forall|i: int| 0 <= i < self@.sessions.len() ==> self@.sessions[i].id < self@.next_id
    }

    /// An empty registry.
    pub fn new() -> (r: Registry)
        ensures
            r.wf(),
            r@.sessions =~= Seq::<SessionV>::empty(),
            r@.next_id == 0,
    {
        Registry { sessions: Vec::new(), next_id: 0 }
    }

    /// Accepts a new connection: adds an unregistered session with a fresh
    /// identifier and returns that identifier.  Returns `None` only when
    /// the identifier space is exhausted.
    pub fn connect(&mut self) -> (r: Option<u64>)
        requires
            old(self).wf(),
        ensures
            final(self).wf(),
            r is Some <==> old(self)@.next_id < u64::MAX,
            r is Some ==> {
                &&& r->0 == old(self)@.next_id
                &&& !has_id(old(self)@.sessions, r->0)
                &&& final(self)@.sessions =~= old(self)@.sessions.push(
                    SessionV { id: r->0, nick: Seq::empty(), stage: Stage::Unregistered },
                )
                &&& final(self)@.next_id == old(self)@.next_id + 1
            },
            r is None ==> final(self)@ =~= old(self)@,
    {
        if self.next_id < u64::MAX {
            let id = self.next_id;
            self.next_id = id + 1;
            self.sessions.push(Session { id, nick: String::new(), stage: Stage::Unregistered });
            proof {
                assert(self@.sessions =~= old(self)@.sessions.push(
                    SessionV { id, nick: Seq::empty(), stage: Stage::Unregistered },
                ));
            }
            Some(id)
        } else {
            None
        }
    }

    /// The index of the session carrying `id`, if any.
    fn find_index(&self, id: u64) -> (r: Option<usize>)
        ensures
            r is Some <==> has_id(self@.sessions, id),
            r is Some ==> 0 <= r->0 < self@.sessions.len() && self@.sessions[r->0 as int].id
                == id,
    {
        let n = self.sessions.len();
        let mut i: usize = 0;
        while i < n
            invariant
                i <= n,
                n == self@.sessions.len(),
                forall|j: int| 0 <= j < i ==> self@.sessions[j].id != id,
            decreases n - i,
        {
            if self.sessions[i].id == id {
                return Some(i);
            }
            i += 1;
        }
        None
    }

    /// Whether a member other than the session carrying `id` holds `nick`.
    fn taken_by_other(&self, nick: &String, id: u64) -> (r: bool)
        ensures
            r == nick_taken_by_other(self@.sessions, nick@, id),
    {
        let n = self.sessions.len();
        let mut i: usize = 0;
        while i < n
            invariant
                i <= n,
                n == self@.sessions.len(),
                forall|j: int|
                    0 <= j < i ==> !(is_member(self@.sessions[j]) && self@.sessions[j].nick
                        == nick@ && self@.sessions[j].id != id),
            decreases n - i,
        {
            let s = &self.sessions[i];
            if s.id != id && s.stage != Stage::Unregistered && s.nick == *nick {
                proof {
                    assert(self@.sessions[i as int] == self.sessions@[i as int]@);
                    assert(is_member(self@.sessions[i as int]));
                }
                return true;
            }
            i += 1;
        }
        false
    }

    /// A copy of the session carrying `id`, if any.
    pub fn get(&self, id: u64) -> (r: Option<Session>)
        requires
            self.wf(),
        ensures
            r is Some <==> has_id(self@.sessions, id),
            r is Some ==> r->0@ == session_of(self@.sessions, id),
    {
        match self.find_index(id) {
            Some(i) => {
                proof {
                    lemma_idx_of_unique(self@.sessions, id, i as int);
                }
                Some(self.sessions[i].clone())
            },
            None => None,
        }
    }

    /// First claim of a nickname by an unregistered session: atomically
    /// checks uniqueness and, on success, maps `nick` to the session and
    /// advances it to `NickSet`.  Fails with `NameTaken` exactly when some
    /// member already answers to `nick`, leaving the table untouched.
    pub fn insert(&mut self, id: u64, nick: String) -> (r: Result<(), RegistryError>)
        requires
            old(self).wf(),
            has_id(old(self)@.sessions, id),
            session_of(old(self)@.sessions, id).stage == Stage::Unregistered,
            nick@.len() > 0,
        ensures
            final(self).wf(),
            final(self)@.next_id == old(self)@.next_id,
            r is Ok <==> !nick_taken(old(self)@.sessions, nick@),
            r is Ok ==> final(self)@.sessions =~= old(self)@.sessions.update(
                idx_of(old(self)@.sessions, id),
                SessionV { id, nick: nick@, stage: Stage::NickSet },
            ),
            r is Err ==> final(self)@ =~= old(self)@ && r == Err::<(), RegistryError>(
                RegistryError::NameTaken,
            ),
    {
        let ghost s0 = self@.sessions;
        proof {
            // The claiming session is not a member, so a member holding the
            // nickname is always a different session.
            let k = idx_of(s0, id);
            if nick_taken(s0, nick@) {
                let w = choose|i: int| 0 <= i < s0.len() && is_member(s0[i]) && s0[i].nick
                    == nick@;
                assert(w != k);
                assert(nick_taken_by_other(s0, nick@, id));
            }
            if nick_taken_by_other(s0, nick@, id) {
                assert(nick_taken(s0, nick@));
            }
        }
        if self.taken_by_other(&nick, id) {
            return Err(RegistryError::NameTaken);
        }
        let i = match self.find_index(id) {
            Some(i) => i,
            None => {
                proof {
                    assert(false);
                }
                0
            },
        };
        proof {
            lemma_idx_of_unique(s0, id, i as int);
        }
        self.sessions.set(i, Session { id, nick, stage: Stage::NickSet });
        proof {
            let s1 = self@.sessions;
            assert(s1 =~= s0.update(i as int, SessionV { id, nick: nick@, stage: Stage::NickSet }));
            assert forall|p: int, q: int|
                0 <= p < s1.len() && 0 <= q < s1.len() && p != q && is_member(s1[p]) && is_member(
                    s1[q],
                ) implies s1[p].nick != s1[q].nick by {
                if p != i as int && q != i as int {
                    assert(s1[p] == s0[p] && s1[q] == s0[q]);
                } else if p == i as int {
                    assert(!(is_member(s0[q]) && s0[q].nick == nick@ && s0[q].id != id));
                } else {
                    assert(!(is_member(s0[p]) && s0[p].nick == nick@ && s0[p].id != id));
                }
            }
        }
        Ok(())
    }

    /// Atomic nickname change: if `new_nick` is already taken by a
    /// different session the call fails with `NameTaken` and the old
    /// mapping is left untouched; otherwise the session's key moves from
    /// its old nickname to `new_nick` in one step, stage unchanged.
    pub fn rename(&mut self, id: u64, new_nick: String) -> (r: Result<(), RegistryError>)
        requires
            old(self).wf(),
            has_id(old(self)@.sessions, id),
            is_member(session_of(old(self)@.sessions, id)),
            new_nick@.len() > 0,
        ensures
            final(self).wf(),
            final(self)@.next_id == old(self)@.next_id,
            r is Ok <==> !nick_taken_by_other(old(self)@.sessions, new_nick@, id),
            r is Ok ==> final(self)@.sessions =~= old(self)@.sessions.update(
                idx_of(old(self)@.sessions, id),
                SessionV {
                    id,
                    nick: new_nick@,
                    stage: session_of(old(self)@.sessions, id).stage,
                },
            ),
            r is Err ==> final(self)@ =~= old(self)@ && r == Err::<(), RegistryError>(
                RegistryError::NameTaken,
            ),
    {
        let ghost s0 = self@.sessions;
        if self.taken_by_other(&new_nick, id) {
            return Err(RegistryError::NameTaken);
        }
        let i = match self.find_index(id) {
            Some(i) => i,
            None => {
                proof {
                    assert(false);
                }
                0
            },
        };
        proof {
            lemma_idx_of_unique(s0, id, i as int);
        }
        let stage = self.sessions[i].stage;
        self.sessions.set(i, Session { id, nick: new_nick, stage });
        proof {
            let s1 = self@.sessions;
            assert(s1 =~= s0.update(
                i as int,
                SessionV { id, nick: new_nick@, stage: session_of(s0, id).stage },
            ));
            assert forall|p: int, q: int|
                0 <= p < s1.len() && 0 <= q < s1.len() && p != q && is_member(s1[p]) && is_member(
                    s1[q],
                ) implies s1[p].nick != s1[q].nick by {
                if p != i as int && q != i as int {
                    assert(s1[p] == s0[p] && s1[q] == s0[q]);
                } else if p == i as int {
                    assert(!(is_member(s0[q]) && s0[q].nick == new_nick@ && s0[q].id != id));
                } else {
                    assert(!(is_member(s0[p]) && s0[p].nick == new_nick@ && s0[p].id != id));
                }
            }
        }
        Ok(())
    }

    /// Completes registration: advances the session carrying `id` from
    /// `NickSet` to `Registered`, touching nothing else.
    pub fn register(&mut self, id: u64)
        requires
            old(self).wf(),
            has_id(old(self)@.sessions, id),
            session_of(old(self)@.sessions, id).stage == Stage::NickSet,
        ensures
            final(self).wf(),
            final(self)@.next_id == old(self)@.next_id,
            final(self)@.sessions =~= old(self)@.sessions.update(
                idx_of(old(self)@.sessions, id),
                SessionV {
                    id,
                    nick: session_of(old(self)@.sessions, id).nick,
                    stage: Stage::Registered,
                },
            ),
    {
        let ghost s0 = self@.sessions;
        let i = match self.find_index(id) {
            Some(i) => i,
            None => {
                proof {
                    assert(false);
                }
                0
            },
        };
        proof {
            lemma_idx_of_unique(s0, id, i as int);
        }
        let nick = self.sessions[i].nick.clone();
        self.sessions.set(i, Session { id, nick, stage: Stage::Registered });
        proof {
            let s1 = self@.sessions;
            assert(s1 =~= s0.update(
                i as int,
                SessionV { id, nick: session_of(s0, id).nick, stage: Stage::Registered },
            ));
            assert forall|p: int, q: int|
                0 <= p < s1.len() && 0 <= q < s1.len() && p != q && is_member(s1[p]) && is_member(
                    s1[q],
                ) implies s1[p].nick != s1[q].nick by {
                assert(s1[p].nick == s0[p].nick && s1[q].nick == s0[q].nick);
                assert(is_member(s0[p]) && is_member(s0[q]));
            }
        }
    }

    /// Removes the session carrying `id` and returns it.  Idempotent:
    /// removing an absent identifier is a no-op returning `None`.  The
    /// identifier counter is untouched, so identifiers are never reused.
    pub fn remove(&mut self, id: u64) -> (r: Option<Session>)
        requires
            old(self).wf(),
        ensures
            final(self).wf(),
            final(self)@.next_id == old(self)@.next_id,
            r is Some <==> has_id(old(self)@.sessions, id),
            r is Some ==> {
                &&& r->0@ == session_of(old(self)@.sessions, id)
                &&& final(self)@.sessions =~= old(self)@.sessions.remove(
                    idx_of(old(self)@.sessions, id),
                )
            },
            r is None ==> final(self)@ =~= old(self)@,
    {
        let ghost s0 = self@.sessions;
        match self.find_index(id) {
            Some(i) => {
                proof {
                    lemma_idx_of_unique(s0, id, i as int);
                }
                let removed = self.sessions.remove(i);
                proof {
                    assert(self@.sessions =~= s0.remove(i as int));
                }
                Some(removed)
            },
            None => None,
        }
    }

    /// A consistent point-in-time view of the broadcast target set: the
    /// identifiers of every member except the session carrying
    /// `excluded_id`, in table order.
    pub fn snapshot_except(&self, excluded_id: u64) -> (r: Vec<u64>)
        ensures
            r@ =~= targets_except(self@.sessions, excluded_id),
    {
        let ghost sv = self@.sessions;
        let n = self.sessions.len();
        let mut out: Vec<u64> = Vec::new();
        let mut i: usize = 0;
        while i < n
            invariant
                i <= n,
                n == sv.len(),
                sv == self@.sessions,
                out@ =~= targets_except(sv.take(i as int), excluded_id),
            decreases n - i,
        {
            let s = &self.sessions[i];
            if s.stage != Stage::Unregistered && s.id != excluded_id {
                out.push(s.id);
            }
            proof {
                assert(sv.take(i as int + 1).drop_last() =~= sv.take(i as int));
                assert(sv.take(i as int + 1).last() == sv[i as int]);
            }
            i += 1;
        }
        proof {
            assert(sv.take(n as int) =~= sv);
        }
        out
    }

    /// The identifiers of every member, in table order.
    pub fn snapshot_all(&self) -> (r: Vec<u64>)
        ensures
            r@ =~= targets_all(self@.sessions),
    {
        let ghost sv = self@.sessions;
        let n = self.sessions.len();
        let mut out: Vec<u64> = Vec::new();
        let mut i: usize = 0;
        while i < n
            invariant
                i <= n,
                n == sv.len(),
                sv == self@.sessions,
                out@ =~= targets_all(sv.take(i as int)),
            decreases n - i,
        {
            let s = &self.sessions[i];
            if s.stage != Stage::Unregistered {
                out.push(s.id);
            }
            proof {
                assert(sv.take(i as int + 1).drop_last() =~= sv.take(i as int));
                assert(sv.take(i as int + 1).last() == sv[i as int]);
            }
            i += 1;
        }
        proof {
            assert(sv.take(n as int) =~= sv);
        }
        out
    }

    /// The number of live sessions.
    pub fn len(&self) -> (r: usize)
        ensures
            r == self@.sessions.len(),
    {
        self.sessions.len()
    }
}

} // verus!
