//! Global laws of the server core, stated and proved over the transition
//! function: nickname uniqueness under every sequence of events,
//! isolation between sessions, registration gating, and exactly-once
//! cleanup.

use vstd::prelude::*;

use crate::command::{parse_spec, CommandV};
use crate::dispatch::{disconnect_step, reply_not_registered, reply_seq, step};
use crate::registry::{
    has_id, idx_of, nick_taken_by_other, session_of, wf_sessions,
};
use crate::session::{is_member, SessionV, Stage};

verus! {

/// One thing a connection driver can feed the core: a decoded line from
/// the session carrying `from`, or the loss of that session's transport.
pub enum EventV {
    Line { from: u64, line: Seq<char> },
    Hangup { from: u64 },
}

/// The session table after one event.
pub open spec fn apply_event(s: Seq<SessionV>, e: EventV) -> Seq<SessionV> {
    match e {
        EventV::Line { from, line } => step(s, from, line).sessions,
        EventV::Hangup { from } => disconnect_step(s, from).sessions,
    }
}

/// The session table after a whole sequence of events, in order.
pub open spec fn run(s: Seq<SessionV>, events: Seq<EventV>) -> Seq<SessionV>
    decreases events.len(),
{
    if events.len() == 0 {
        s
    } else {
        run(apply_event(s, events[0]), events.drop_first())
    }
}

/// Whether `e` is a line from session `sid` that decodes to `USER`.
pub open spec fn is_user_line_from(e: EventV, sid: u64) -> bool {
    match e {
        EventV::Line { from, line } => from == sid && parse_spec(line) is User,
        EventV::Hangup { .. } => false,
    }
}

/// Replacing the session at `k` by one with the same identifier, a
/// non-empty nickname no other member holds, and a member stage keeps the
/// table well-formed.
proof fn lemma_wf_update(s: Seq<SessionV>, k: int, nick2: Seq<char>, stage2: Stage)
    requires
        wf_sessions(s),
        0 <= k < s.len(),
        nick2.len() > 0,
        stage2 != Stage::Unregistered,
        !nick_taken_by_other(s, nick2, s[k].id),
    ensures
        wf_sessions(s.update(k, SessionV { id: s[k].id, nick: nick2, stage: stage2 })),
{
    let t = s.update(k, SessionV { id: s[k].id, nick: nick2, stage: stage2 });
    assert forall|p: int, q: int|
        0 <= p < t.len() && 0 <= q < t.len() && p != q && is_member(t[p]) && is_member(t[q])
        implies t[p].nick != t[q].nick by {
        if p != k && q != k {
            assert(t[p] == s[p] && t[q] == s[q]);
        } else if p == k {
            assert(t[q] == s[q]);
            assert(s[q].id != s[k].id);
            assert(!(is_member(s[q]) && s[q].nick == nick2 && s[q].id != s[k].id));
        } else {
            assert(t[p] == s[p]);
            assert(s[p].id != s[k].id);
            assert(!(is_member(s[p]) && s[p].nick == nick2 && s[p].id != s[k].id));
        }
    }
}

/// Removing a session keeps the table well-formed.
proof fn lemma_wf_remove(s: Seq<SessionV>, k: int)
    requires
        wf_sessions(s),
        0 <= k < s.len(),
    ensures
        wf_sessions(s.remove(k)),
{
    let t = s.remove(k);
    assert(forall|i: int| 0 <= i < k ==> t[i] == s[i]);
    assert(forall|i: int| k <= i < t.len() ==> t[i] == s[i + 1]);
}

/// After removing the session at the unique index of `id`, no session
/// carries `id` any more.
proof fn lemma_remove_erases_id(s: Seq<SessionV>, id: u64)
    requires
        wf_sessions(s),
        has_id(s, id),
    ensures
        !has_id(s.remove(idx_of(s, id)), id),
{
    let k = idx_of(s, id);
    let t = s.remove(k);
    assert forall|i: int| 0 <= i < t.len() implies t[i].id != id by {
        if i < k {
            assert(t[i] == s[i]);
            assert(s[i].id != s[k].id);
        } else {
            assert(t[i] == s[i + 1]);
            assert(s[i + 1].id != s[k].id);
        }
    }
}

/// No member of a well-formed table other than the one at `k` holds the
/// nickname of the member at `k`.
proof fn lemma_own_nick_free(s: Seq<SessionV>, k: int)
    requires
        wf_sessions(s),
        0 <= k < s.len(),
        is_member(s[k]),
    ensures
        !nick_taken_by_other(s, s[k].nick, s[k].id),
{
    if nick_taken_by_other(s, s[k].nick, s[k].id) {
        let w = choose|i: int|
            0 <= i < s.len() && is_member(s[i]) && s[i].nick == s[k].nick && s[i].id != s[k].id;
        assert(w != k);
    }
}

/// Dispatching one line keeps the table well-formed — in particular, the
/// registry never holds two live sessions with the same nickname, whatever
/// any session sends.
pub proof fn lemma_step_preserves_wf(s: Seq<SessionV>, id: u64, line: Seq<char>)
    requires
        wf_sessions(s),
    ensures
        wf_sessions(step(s, id, line).sessions),
{
    if has_id(s, id) {
        let k = idx_of(s, id);
        assert(0 <= k < s.len() && s[k].id == id);
        let me = s[k];
        match parse_spec(line) {
            CommandV::Nick(new_nick) => {
                if new_nick.len() > 0 && !nick_taken_by_other(s, new_nick, me.id) {
                    let stage2 = if me.stage is Unregistered {
                        Stage::NickSet
                    } else {
                        me.stage
                    };
                    lemma_wf_update(s, k, new_nick, stage2);
                }
            },
            CommandV::User => {
                if me.stage is NickSet {
                    lemma_own_nick_free(s, k);
                    lemma_wf_update(s, k, me.nick, Stage::Registered);
                }
            },
            CommandV::Quit => {
                lemma_wf_remove(s, k);
            },
            _ => {},
        }
    }
}

/// Transport-loss cleanup keeps the table well-formed.
pub proof fn lemma_disconnect_preserves_wf(s: Seq<SessionV>, id: u64)
    requires
        wf_sessions(s),
    ensures
        wf_sessions(disconnect_step(s, id).sessions),
{
    if has_id(s, id) {
        let k = idx_of(s, id);
        assert(0 <= k < s.len() && s[k].id == id);
        lemma_wf_remove(s, k);
    }
}

/// Nickname uniqueness is an invariant of every whole history: however
/// many sessions send `NICK`, `USER`, `JOIN`, `PRIVMSG` or `QUIT` lines in
/// whatever interleaving, and however many transports drop, a well-formed
/// registry never comes to hold two live sessions with the same nickname.
pub proof fn lemma_run_preserves_wf(s: Seq<SessionV>, events: Seq<EventV>)
    requires
        wf_sessions(s),
    ensures
        wf_sessions(run(s, events)),
    decreases events.len(),
{
    if events.len() > 0 {
        match events[0] {
            EventV::Line { from, line } => lemma_step_preserves_wf(s, from, line),
            EventV::Hangup { from } => lemma_disconnect_preserves_wf(s, from),
        }
        lemma_run_preserves_wf(apply_event(s, events[0]), events.drop_first());
    }
}

/// Isolation: a line from one session never touches any other session's
/// entry — presence, identifier, nickname and stage are all unchanged.
pub proof fn lemma_step_frame(s: Seq<SessionV>, id: u64, line: Seq<char>, sid: u64)
    requires
        wf_sessions(s),
        sid != id,
    ensures
        has_id(step(s, id, line).sessions, sid) <==> has_id(s, sid),
        has_id(s, sid) ==> session_of(step(s, id, line).sessions, sid) == session_of(s, sid),
{
    let t = step(s, id, line).sessions;
    lemma_step_preserves_wf(s, id, line);
    if has_id(s, id) {
        let k = idx_of(s, id);
        assert(0 <= k < s.len() && s[k].id == id);
        lemma_table_edit_frame(s, t, k, sid);
    }
}

/// Cleanup of one session never touches any other session's entry.
pub proof fn lemma_disconnect_frame(s: Seq<SessionV>, id: u64, sid: u64)
    requires
        wf_sessions(s),
        sid != id,
    ensures
        has_id(disconnect_step(s, id).sessions, sid) <==> has_id(s, sid),
        has_id(s, sid) ==> session_of(disconnect_step(s, id).sessions, sid) == session_of(
            s,
            sid,
        ),
{
    let t = disconnect_step(s, id).sessions;
    lemma_disconnect_preserves_wf(s, id);
    if has_id(s, id) {
        let k = idx_of(s, id);
        assert(0 <= k < s.len() && s[k].id == id);
        lemma_table_edit_frame(s, t, k, sid);
    }
}

/// Common frame argument: if `t` is `s`, `s` with the entry at `k`
/// replaced by one with the same identifier, or `s` with the entry at `k`
/// removed, then every session with an identifier other than `s[k].id` is
/// untouched.
proof fn lemma_table_edit_frame(s: Seq<SessionV>, t: Seq<SessionV>, k: int, sid: u64)
    requires
        wf_sessions(s),
        wf_sessions(t),
        0 <= k < s.len(),
        sid != s[k].id,
        t == s || (t.len() == s.len() && t[k].id == s[k].id && forall|i: int|
            0 <= i < s.len() && i != k ==> t[i] == s[i]) || t == s.remove(k),
    ensures
        has_id(t, sid) <==> has_id(s, sid),
        has_id(s, sid) ==> session_of(t, sid) == session_of(s, sid),
{
    if t == s {
    } else if t.len() == s.len() && t[k].id == s[k].id && forall|i: int|
        0 <= i < s.len() && i != k ==> t[i] == s[i] {
        if has_id(s, sid) {
            let i = idx_of(s, sid);
            assert(0 <= i < s.len() && s[i].id == sid);
            assert(i != k);
            assert(t[i] == s[i]);
            crate::registry::lemma_idx_of_unique(t, sid, i);
        }
        if has_id(t, sid) {
            let i = idx_of(t, sid);
            assert(0 <= i < t.len() && t[i].id == sid);
            assert(i != k);
            assert(t[i] == s[i]);
        }
    } else {
        assert(t == s.remove(k));
        assert(forall|i: int| 0 <= i < k ==> t[i] == s[i]);
        assert(forall|i: int| k <= i < t.len() ==> t[i] == s[i + 1]);
        if has_id(s, sid) {
            let i = idx_of(s, sid);
            assert(0 <= i < s.len() && s[i].id == sid);
            assert(i != k);
            if i < k {
                assert(t[i] == s[i]);
                crate::registry::lemma_idx_of_unique(t, sid, i);
            } else {
                assert(t[i - 1] == s[i]);
                crate::registry::lemma_idx_of_unique(t, sid, i - 1);
            }
        }
        if has_id(t, sid) {
            let i = idx_of(t, sid);
            assert(0 <= i < t.len() && t[i].id == sid);
            if i < k {
                assert(t[i] == s[i]);
            } else {
                assert(t[i] == s[i + 1]);
            }
        }
    }
}

/// Which step results replace or remove the sender's entry.  A session's
/// stage becomes `Registered` only through its own `USER` line: any other
/// line leaves a non-`Registered` session non-`Registered` (or gone).
pub proof fn lemma_registered_only_by_user(s: Seq<SessionV>, id: u64, line: Seq<char>)
    requires
        wf_sessions(s),
        has_id(s, id),
        session_of(s, id).stage != Stage::Registered,
        !(parse_spec(line) is User),
    ensures
        has_id(step(s, id, line).sessions, id) ==> session_of(step(s, id, line).sessions, id).stage
            != Stage::Registered,
{
    let t = step(s, id, line).sessions;
    let k = idx_of(s, id);
    assert(0 <= k < s.len() && s[k].id == id);
    let me = s[k];
    lemma_step_preserves_wf(s, id, line);
    match parse_spec(line) {
        CommandV::Nick(new_nick) => {
            if new_nick.len() > 0 && !nick_taken_by_other(s, new_nick, me.id) {
                let stage2 = if me.stage is Unregistered {
                    Stage::NickSet
                } else {
                    me.stage
                };
                assert(t[k].id == id && t[k].stage == stage2);
                crate::registry::lemma_idx_of_unique(t, id, k);
            }
        },
        CommandV::Quit => {
            lemma_remove_erases_id(s, id);
        },
        _ => {},
    }
}

/// Registration gating over a whole history: a session that never sends a
/// `USER` line can never end up `Registered`, whatever else it or any
/// other session does.
pub proof fn lemma_never_user_never_registered(s: Seq<SessionV>, events: Seq<EventV>, sid: u64)
    requires
        wf_sessions(s),
        has_id(s, sid) ==> session_of(s, sid).stage != Stage::Registered,
        forall|i: int| 0 <= i < events.len() ==> !is_user_line_from(#[trigger] events[i], sid),
    ensures
        has_id(run(s, events), sid) ==> session_of(run(s, events), sid).stage
            != Stage::Registered,
    decreases events.len(),
{
    if events.len() > 0 {
        let e = events[0];
        let s1 = apply_event(s, e);
        match e {
            EventV::Line { from, line } => {
                lemma_step_preserves_wf(s, from, line);
                if from == sid {
                    if has_id(s, sid) {
                        lemma_registered_only_by_user(s, sid, line);
                    }
                } else {
                    lemma_step_frame(s, from, line, sid);
                }
            },
            EventV::Hangup { from } => {
                lemma_disconnect_preserves_wf(s, from);
                if from == sid {
                    if has_id(s, sid) {
                        let k = idx_of(s, sid);
                        assert(0 <= k < s.len() && s[k].id == sid);
                        lemma_remove_erases_id(s, sid);
                    }
                } else {
                    lemma_disconnect_frame(s, from, sid);
                }
            },
        }
        assert(forall|i: int|
            0 <= i < events.drop_first().len() ==> !is_user_line_from(
                #[trigger] events.drop_first()[i],
                sid,
            ));
        lemma_never_user_never_registered(s1, events.drop_first(), sid);
    }
}

/// A `NICK` that collides with a nickname held by a different live
/// session always fails: the table — in particular the colliding mapping —
/// is left intact, and the only delivery is the name-taken reply to the
/// sender.
pub proof fn lemma_nick_collision_rejected(
    s: Seq<SessionV>,
    id: u64,
    line: Seq<char>,
    new_nick: Seq<char>,
)
    requires
        wf_sessions(s),
        has_id(s, id),
        parse_spec(line) == CommandV::Nick(new_nick),
        new_nick.len() > 0,
        nick_taken_by_other(s, new_nick, id),
    ensures
        step(s, id, line).sessions == s,
        step(s, id, line).deliveries == reply_seq(
            id,
            crate::dispatch::reply_nick_taken(new_nick),
        ),
        !step(s, id, line).closed,
{
    let k = idx_of(s, id);
    assert(0 <= k < s.len() && s[k].id == id);
}

/// A `PRIVMSG` from a session that is not `Registered` is rejected: the
/// table is unchanged, the only delivery is the not-registered reply to
/// the sender, and nothing is broadcast.
pub proof fn lemma_unregistered_privmsg_rejected(s: Seq<SessionV>, id: u64, line: Seq<char>)
    requires
        wf_sessions(s),
        has_id(s, id),
        session_of(s, id).stage != Stage::Registered,
        parse_spec(line) is Privmsg,
    ensures
        step(s, id, line).sessions == s,
        step(s, id, line).deliveries == reply_seq(id, reply_not_registered()),
        !step(s, id, line).closed,
{
}

/// A line from a session that is no longer in the registry does nothing:
/// the table is unchanged and nothing is delivered.  Together with
/// `lemma_disconnect_idempotent` this covers a command still in flight
/// while its session's cleanup has already run.
pub proof fn lemma_absent_session_line_noop(s: Seq<SessionV>, id: u64, line: Seq<char>)
    requires
        !has_id(s, id),
    ensures
        step(s, id, line).sessions == s,
        step(s, id, line).deliveries == Seq::<crate::broadcast::DeliveryV>::empty(),
        !step(s, id, line).closed,
{
}

/// Whether some member of `s` carries the identifier `sid`.
pub open spec fn member_with_id(s: Seq<SessionV>, sid: u64) -> bool {
    exists|i: int| 0 <= i < s.len() && is_member(s[i]) && s[i].id == sid
}

/// A successful chat line is delivered to every other current member,
/// exactly once each, and never to the sender; the table is unchanged.
pub proof fn lemma_privmsg_fanout(
    s: Seq<SessionV>,
    id: u64,
    line: Seq<char>,
    channel: Seq<char>,
    text: Seq<char>,
)
    requires
        wf_sessions(s),
        has_id(s, id),
        session_of(s, id).stage == Stage::Registered,
        parse_spec(line) == CommandV::Privmsg(channel, text),
        channel == crate::dispatch::room_name(),
        text.len() > 0,
    ensures
        step(s, id, line).sessions == s,
        !step(s, id, line).closed,
        ({
            let ds = step(s, id, line).deliveries;
            let msg = crate::dispatch::notice_privmsg(session_of(s, id).nick, text);
            &&& forall|j: int|
                0 <= j < ds.len() ==> (#[trigger] ds[j]).line == msg && ds[j].to != id
            &&& forall|j: int| 0 <= j < ds.len() ==> member_with_id(s, (#[trigger] ds[j]).to)
            &&& forall|sid: u64|
                #[trigger] member_with_id(s, sid) && sid != id ==> exists|j: int|
                    0 <= j < ds.len() && (#[trigger] ds[j]).to == sid
            &&& forall|j1: int, j2: int|
                0 <= j1 < j2 < ds.len() ==> (#[trigger] ds[j1]).to != (#[trigger] ds[j2]).to
        }),
{
    let k = idx_of(s, id);
    assert(0 <= k < s.len() && s[k].id == id);
    let targets = crate::registry::targets_except(s, id);
    let ds = step(s, id, line).deliveries;
    crate::broadcast::lemma_targets_except_distinct(s, id);
    assert(forall|j: int| 0 <= j < ds.len() ==> (#[trigger] ds[j]).to == targets[j]);
    assert forall|j: int| 0 <= j < ds.len() implies member_with_id(s, (#[trigger] ds[j]).to)
        && ds[j].to != id by {
        crate::broadcast::lemma_targets_except_iff(s, id, targets[j]);
        assert(targets.contains(targets[j]));
    }
    assert forall|sid: u64| #[trigger] member_with_id(s, sid) && sid != id implies exists|j: int|
        0 <= j < ds.len() && (#[trigger] ds[j]).to == sid by {
        crate::broadcast::lemma_targets_except_iff(s, id, sid);
        assert(targets.contains(sid));
        let j = choose|j: int| 0 <= j < targets.len() && targets[j] == sid;
        assert(0 <= j < ds.len() && ds[j].to == sid);
    }
}

/// Cleanup runs at most once: the first disconnect removes the session
/// from the registry, and a second disconnect of the same identifier finds
/// nothing, changes nothing, and delivers nothing.
pub proof fn lemma_disconnect_idempotent(s: Seq<SessionV>, id: u64)
    requires
        wf_sessions(s),
    ensures
        !has_id(disconnect_step(s, id).sessions, id),
        disconnect_step(disconnect_step(s, id).sessions, id).sessions == disconnect_step(
            s,
            id,
        ).sessions,
        disconnect_step(disconnect_step(s, id).sessions, id).deliveries
            == Seq::<crate::broadcast::DeliveryV>::empty(),
{
    if has_id(s, id) {
        lemma_remove_erases_id(s, id);
    }
}

} // verus!
