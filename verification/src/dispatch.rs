//! The per-line command dispatcher: the registration state machine and the
//! protocol's replies.
//!
//! `step` is the mathematical transition function — from a session table,
//! an originating session and one decoded line to the next table, the
//! lines to deliver and whether the session closed.  `handle_line` is the
//! executable dispatcher, proved to implement `step` exactly;
//! `handle_disconnect` is the terminal cleanup for a transport that closed
//! without `QUIT`.
//!
//! Policy choices stated here once: a session enters the registry on its
//! first valid `NICK` (no placeholder nicknames); `JOIN` and `PRIVMSG` are
//! refused before the stage they need; chat lines are never echoed to the
//! sender; the departure reason is always the generic goodbye.

use vstd::prelude::*;

use crate::broadcast::{broadcast_except, delivery_views, fanout, Delivery, DeliveryV};
use crate::registry::{
    has_id, idx_of, nick_taken, nick_taken_by_other, session_of, targets_except, wf_sessions,
    Registry, RegistryError,
};
use crate::session::{is_member, Session, SessionV, Stage};

verus! {

/// The name of the single supported room.
pub open spec fn room_name() -> Seq<char> {
    "#Main"@
}

/// How a session is shown in server replies: its nickname, or `*` before
/// it has one.
pub open spec fn display_of(nick: Seq<char>) -> Seq<char> {
    if nick.len() > 0 {
        nick
    } else {
        "*"@
    }
}

/// How an unrecognized verb is shown: itself, or a placeholder when the
/// line had no verb at all.
pub open spec fn verb_display(verb: Seq<char>) -> Seq<char> {
    if verb.len() > 0 {
        verb
    } else {
        "Unknown"@
    }
}

/// `NICK` with an empty name.
pub open spec fn reply_no_nickname() -> Seq<char> {
    ":server 431 * :No nickname given"@
}

/// `NICK` colliding with a different live session.
pub open spec fn reply_nick_taken(nick: Seq<char>) -> Seq<char> {
    ":server 433 "@ + nick + " :Nickname is already in use"@
}

/// A successful `NICK`.
pub open spec fn reply_nick_set(nick: Seq<char>) -> Seq<char> {
    ":server 001 "@ + nick + " :Your nickname is now "@ + nick
}

/// A completed registration.
pub open spec fn reply_welcome(nick: Seq<char>) -> Seq<char> {
    ":server 001 "@ + nick + " :Welcome, "@ + nick + "!"@
}

/// `USER` from an already registered session.
pub open spec fn reply_already_registered() -> Seq<char> {
    ":server 462 * :You are already registered"@
}

/// A command that needs a later registration stage.
pub open spec fn reply_not_registered() -> Seq<char> {
    ":server 451 * :You have not registered"@
}

/// A channel other than the supported room.
pub open spec fn reply_no_such_channel(shown: Seq<char>) -> Seq<char> {
    ":server 403 "@ + shown + " :No such channel"@
}

/// `PRIVMSG` with empty or missing text.
pub open spec fn reply_no_text(shown: Seq<char>) -> Seq<char> {
    ":server 412 "@ + shown + " :No text to send"@
}

/// An unrecognized verb.
pub open spec fn reply_unknown(shown: Seq<char>, verb: Seq<char>) -> Seq<char> {
    ":server 421 "@ + shown + " :Unknown command ("@ + verb_display(verb) + ")"@
}

/// A join announcement, sent to the joiner and broadcast to the room.
pub open spec fn notice_join(nick: Seq<char>) -> Seq<char> {
    ":"@ + nick + " JOIN #Main"@
}

/// A nickname-change announcement.
pub open spec fn notice_nick(old_nick: Seq<char>, new_nick: Seq<char>) -> Seq<char> {
    ":"@ + old_nick + " NICK :"@ + new_nick
}

/// A chat line as the room receives it.
pub open spec fn notice_privmsg(nick: Seq<char>, text: Seq<char>) -> Seq<char> {
    ":"@ + nick + " PRIVMSG #Main :"@ + text
}

/// A departure announcement, also the goodbye reply.
pub open spec fn notice_quit(nick: Seq<char>) -> Seq<char> {
    ":"@ + nick + " QUIT :Goodbye!"@
}

/// The line every freshly accepted connection is greeted with.
pub open spec fn greeting() -> Seq<char> {
    ":server NOTICE * :Welcome to the IRC server!"@
}

/// The greeting the connection driver writes to a new connection.
pub fn connect_greeting() -> (r: String)
    ensures
        r@ == greeting(),
{
    String::from_str(":server NOTICE * :Welcome to the IRC server!")
}

/// The image of one dispatcher step: the session table afterwards, the
/// lines to deliver in order, and whether the originating session closed.
#[verifier::ext_equal]
pub struct StepV {
    pub sessions: Seq<SessionV>,
    pub deliveries: Seq<DeliveryV>,
    pub closed: bool,
}

/// A single reply line addressed to one session.
pub open spec fn reply_seq(to: u64, line: Seq<char>) -> Seq<DeliveryV> {
    seq![DeliveryV { to, line }]
}

/// A step that changes nothing and only replies to the sender.
pub open spec fn replied(s: Seq<SessionV>, to: u64, line: Seq<char>) -> StepV {
    StepV { sessions: s, deliveries: reply_seq(to, line), closed: false }
}

/// `NICK <name>`: claim or atomically change a nickname.
pub open spec fn step_nick(s: Seq<SessionV>, me: SessionV, new_nick: Seq<char>) -> StepV {
    if new_nick.len() == 0 {
        replied(s, me.id, reply_no_nickname())
    } else if nick_taken_by_other(s, new_nick, me.id) {
        replied(s, me.id, reply_nick_taken(new_nick))
    } else {
        let stage2 = if me.stage is Unregistered {
            Stage::NickSet
        } else {
            me.stage
        };
        let s2 = s.update(idx_of(s, me.id), SessionV { id: me.id, nick: new_nick, stage: stage2 });
        let notices = if me.stage is Registered && me.nick != new_nick {
            fanout(targets_except(s2, me.id), notice_nick(me.nick, new_nick))
        } else {
            Seq::empty()
        };
        StepV {
            sessions: s2,
            deliveries: reply_seq(me.id, reply_nick_set(new_nick)) + notices,
            closed: false,
        }
    }
}

/// `USER`: complete registration and announce the join.
pub open spec fn step_user(s: Seq<SessionV>, me: SessionV) -> StepV {
    match me.stage {
        Stage::Unregistered => replied(s, me.id, reply_not_registered()),
        Stage::Registered => replied(s, me.id, reply_already_registered()),
        Stage::NickSet => {
            let s2 = s.update(
                idx_of(s, me.id),
                SessionV { id: me.id, nick: me.nick, stage: Stage::Registered },
            );
            StepV {
                sessions: s2,
                deliveries: reply_seq(me.id, reply_welcome(me.nick)) + fanout(
                    targets_except(s2, me.id),
                    notice_join(me.nick),
                ),
                closed: false,
            }
        },
    }
}

/// `JOIN <channel>`: only the single room exists; joining it again is a
/// no-op success that re-announces the join.
pub open spec fn step_join(s: Seq<SessionV>, me: SessionV, channel: Seq<char>) -> StepV {
    if channel != room_name() {
        replied(s, me.id, reply_no_such_channel(display_of(me.nick)))
    } else if me.stage is Unregistered {
        replied(s, me.id, reply_not_registered())
    } else {
        StepV {
            sessions: s,
            deliveries: reply_seq(me.id, notice_join(me.nick)) + fanout(
                targets_except(s, me.id),
                notice_join(me.nick),
            ),
            closed: false,
        }
    }
}

/// `PRIVMSG <channel> :<text>`: broadcast to everyone in the room except
/// the sender.  Rejected before registration, for a channel other than the
/// room, and for empty text.
pub open spec fn step_privmsg(
    s: Seq<SessionV>,
    me: SessionV,
    channel: Seq<char>,
    text: Seq<char>,
) -> StepV {
    if !(me.stage is Registered) {
        replied(s, me.id, reply_not_registered())
    } else if channel != room_name() {
        replied(s, me.id, reply_no_such_channel(me.nick))
    } else if text.len() == 0 {
        replied(s, me.id, reply_no_text(me.nick))
    } else {
        StepV {
            sessions: s,
            deliveries: fanout(targets_except(s, me.id), notice_privmsg(me.nick, text)),
            closed: false,
        }
    }
}

/// `QUIT`: goodbye to the leaver, a departure notice to the room if the
/// leaver was a member, and removal from the registry.
pub open spec fn step_quit(s: Seq<SessionV>, me: SessionV) -> StepV {
    let notices = if is_member(me) {
        fanout(targets_except(s, me.id), notice_quit(me.nick))
    } else {
        Seq::empty()
    };
    StepV {
        sessions: s.remove(idx_of(s, me.id)),
        deliveries: reply_seq(me.id, notice_quit(display_of(me.nick))) + notices,
        closed: true,
    }
}

/// The dispatcher's transition function: what one decoded line from the
/// session carrying `id` does.  A line from an absent session does
/// nothing.
pub open spec fn step(s: Seq<SessionV>, id: u64, line: Seq<char>) -> StepV {
    if !has_id(s, id) {
        StepV { sessions: s, deliveries: Seq::empty(), closed: false }
    } else {
        let me = session_of(s, id);
        match crate::command::parse_spec(line) {
            crate::command::CommandV::Nick(new_nick) => step_nick(s, me, new_nick),
            crate::command::CommandV::User => step_user(s, me),
            crate::command::CommandV::Join(channel) => step_join(s, me, channel),
            crate::command::CommandV::Privmsg(channel, text) => step_privmsg(
                s,
                me,
                channel,
                text,
            ),
            crate::command::CommandV::Quit => step_quit(s, me),
            crate::command::CommandV::Cap => StepV {
                sessions: s,
                deliveries: Seq::empty(),
                closed: false,
            },
            crate::command::CommandV::Unknown(verb) => replied(
                s,
                id,
                reply_unknown(display_of(me.nick), verb),
            ),
        }
    }
}

/// Terminal cleanup for a transport that closed without `QUIT`: the same
/// departure as `QUIT`, minus the goodbye that nobody could read.  Total
/// and idempotent: cleaning up an absent session does nothing.
pub open spec fn disconnect_step(s: Seq<SessionV>, id: u64) -> StepV {
    if !has_id(s, id) {
        StepV { sessions: s, deliveries: Seq::empty(), closed: false }
    } else {
        let me = session_of(s, id);
        let notices = if is_member(me) {
            fanout(targets_except(s, me.id), notice_quit(me.nick))
        } else {
            Seq::empty()
        };
        StepV { sessions: s.remove(idx_of(s, id)), deliveries: notices, closed: true }
    }
}

/// What one dispatcher call hands back to the connection driver.
pub struct Outcome {
    pub deliveries: Vec<Delivery>,
    pub closed: bool,
}

/// Concatenation of two string slices.
fn concat2(a: &str, b: &str) -> (r: String)
    ensures
        r@ == a@ + b@,
{
    let mut r = String::from_str(a);
    r.append(b);
    r
}

/// Concatenation `a + b + c`.
fn concat3(a: &str, b: &str, c: &str) -> (r: String)
    ensures
        r@ == a@ + b@ + c@,
{
    let mut r = String::from_str(a);
    r.append(b);
    r.append(c);
    r
}

/// Concatenation `a + b + c + d`.
fn concat4(a: &str, b: &str, c: &str, d: &str) -> (r: String)
    ensures
        r@ == a@ + b@ + c@ + d@,
{
    let mut r = String::from_str(a);
    r.append(b);
    r.append(c);
    r.append(d);
    r
}

/// Concatenation `a + b + c + d + e`.
fn concat5(a: &str, b: &str, c: &str, d: &str, e: &str) -> (r: String)
    ensures
        r@ == a@ + b@ + c@ + d@ + e@,
{
    let mut r = String::from_str(a);
    r.append(b);
    r.append(c);
    r.append(d);
    r.append(e);
    r
}

/// How the session is shown in replies.
fn shown_nick(nick: &String) -> (r: String)
    ensures
        r@ == display_of(nick@),
{
    if nick.as_str().is_empty() {
        String::from_str("*")
    } else {
        nick.clone()
    }
}

/// A one-delivery list.
fn single(to: u64, line: String) -> (r: Vec<Delivery>)
    ensures
        delivery_views(r@) =~~= reply_seq(to, line@),
{
    let mut r: Vec<Delivery> = Vec::new();
    r.push(Delivery { to, line });
    r
}

/// The executable dispatcher.  Given one decoded input line from the live
/// session carrying `id`, performs exactly the transition `step` describes:
/// the registry afterwards, the deliveries in order, and whether the
/// session closed.
pub fn handle_line(reg: &mut Registry, id: u64, line: &str) -> (out: Outcome)
    requires
        old(reg).wf(),
        has_id(old(reg)@.sessions, id),
    ensures
        final(reg).wf(),
        final(reg)@.next_id == old(reg)@.next_id,
        final(reg)@.sessions == step(old(reg)@.sessions, id, line@).sessions,
        delivery_views(out.deliveries@) == step(old(reg)@.sessions, id, line@).deliveries,
        out.closed == step(old(reg)@.sessions, id, line@).closed,
{
    let ghost s0 = reg@.sessions;
    let me = match reg.get(id) {
        Some(s) => s,
        None => {
            proof {
                assert(false);
            }
            Session { id, nick: String::new(), stage: Stage::Unregistered }
        },
    };
    let cmd = crate::command::parse_line(line);
    match cmd {
        crate::command::Command::Nick(new_nick) => {
            if new_nick.as_str().is_empty() {
                let ds = single(id, String::from_str(":server 431 * :No nickname given"));
                proof {
                    assert(delivery_views(ds@) =~~= step(s0, id, line@).deliveries);
                }
                Outcome { deliveries: ds, closed: false }
            } else {
                let result = if me.stage == Stage::Unregistered {
                    proof {
                        lemma_taken_vs_taken_by_other(s0, new_nick@, id);
                    }
                    reg.insert(id, new_nick.clone())
                } else {
                    reg.rename(id, new_nick.clone())
                };
                match result {
                    Err(RegistryError::NameTaken) => {
                        let ds = single(
                            id,
                            concat3(
                                ":server 433 ",
                                new_nick.as_str(),
                                " :Nickname is already in use",
                            ),
                        );
                        proof {
                            assert(delivery_views(ds@) =~~= step(s0, id, line@).deliveries);
                        }
                        Outcome { deliveries: ds, closed: false }
                    },
                    Ok(()) => {
                        let mut ds = single(
                            id,
                            concat4(
                                ":server 001 ",
                                new_nick.as_str(),
                                " :Your nickname is now ",
                                new_nick.as_str(),
                            ),
                        );
                        if me.stage == Stage::Registered && !(me.nick == new_nick) {
                            let notice = concat4(
                                ":",
                                me.nick.as_str(),
                                " NICK :",
                                new_nick.as_str(),
                            );
                            let mut notices = broadcast_except(reg, &notice, id);
                            ds.append(&mut notices);
                        }
                        proof {
                            assert(reg@.sessions =~~= step(s0, id, line@).sessions);
                            assert(delivery_views(ds@) =~~= step(s0, id, line@).deliveries);
                        }
                        Outcome { deliveries: ds, closed: false }
                    },
                }
            }
        },
        crate::command::Command::User => {
            match me.stage {
                Stage::Unregistered => {
                    let ds = single(id, String::from_str(":server 451 * :You have not registered"));
                    proof {
                        assert(delivery_views(ds@) =~~= step(s0, id, line@).deliveries);
                    }
                    Outcome { deliveries: ds, closed: false }
                },
                Stage::Registered => {
                    let ds = single(
                        id,
                        String::from_str(":server 462 * :You are already registered"),
                    );
                    proof {
                        assert(delivery_views(ds@) =~~= step(s0, id, line@).deliveries);
                    }
                    Outcome { deliveries: ds, closed: false }
                },
                Stage::NickSet => {
                    reg.register(id);
                    let mut ds = single(
                        id,
                        concat5(":server 001 ", me.nick.as_str(), " :Welcome, ", me.nick.as_str(), "!"),
                    );
                    let notice = concat3(":", me.nick.as_str(), " JOIN #Main");
                    let mut notices = broadcast_except(reg, &notice, id);
                    ds.append(&mut notices);
                    proof {
                        assert(reg@.sessions =~~= step(s0, id, line@).sessions);
                        assert(delivery_views(ds@) =~~= step(s0, id, line@).deliveries);
                    }
                    Outcome { deliveries: ds, closed: false }
                },
            }
        },
        crate::command::Command::Join(channel) => {
            if !crate::command::str_eq(channel.as_str(), "#Main") {
                let shown = shown_nick(&me.nick);
                let ds = single(id, concat3(":server 403 ", shown.as_str(), " :No such channel"));
                proof {
                    assert(delivery_views(ds@) =~~= step(s0, id, line@).deliveries);
                }
                Outcome { deliveries: ds, closed: false }
            } else if me.stage == Stage::Unregistered {
                let ds = single(id, String::from_str(":server 451 * :You have not registered"));
                proof {
                    assert(delivery_views(ds@) =~~= step(s0, id, line@).deliveries);
                }
                Outcome { deliveries: ds, closed: false }
            } else {
                let notice = concat3(":", me.nick.as_str(), " JOIN #Main");
                let mut ds = single(id, notice.clone());
                let mut notices = broadcast_except(reg, &notice, id);
                ds.append(&mut notices);
                proof {
                    assert(delivery_views(ds@) =~~= step(s0, id, line@).deliveries);
                }
                Outcome { deliveries: ds, closed: false }
            }
        },
        crate::command::Command::Privmsg(channel, text) => {
            if !(me.stage == Stage::Registered) {
                let ds = single(id, String::from_str(":server 451 * :You have not registered"));
                proof {
                    assert(delivery_views(ds@) =~~= step(s0, id, line@).deliveries);
                }
                Outcome { deliveries: ds, closed: false }
            } else if !crate::command::str_eq(channel.as_str(), "#Main") {
                let ds = single(
                    id,
                    concat3(":server 403 ", me.nick.as_str(), " :No such channel"),
                );
                proof {
                    assert(delivery_views(ds@) =~~= step(s0, id, line@).deliveries);
                }
                Outcome { deliveries: ds, closed: false }
            } else if text.as_str().is_empty() {
                let ds = single(id, concat3(":server 412 ", me.nick.as_str(), " :No text to send"));
                proof {
                    assert(delivery_views(ds@) =~~= step(s0, id, line@).deliveries);
                }
                Outcome { deliveries: ds, closed: false }
            } else {
                let notice = concat4(":", me.nick.as_str(), " PRIVMSG #Main :", text.as_str());
                let ds = broadcast_except(reg, &notice, id);
                proof {
                    assert(delivery_views(ds@) =~~= step(s0, id, line@).deliveries);
                }
                Outcome { deliveries: ds, closed: false }
            }
        },
        crate::command::Command::Quit => {
            let shown = shown_nick(&me.nick);
            let mut ds = single(id, concat3(":", shown.as_str(), " QUIT :Goodbye!"));
            if me.stage != Stage::Unregistered {
                let notice = concat3(":", me.nick.as_str(), " QUIT :Goodbye!");
                let mut notices = broadcast_except(reg, &notice, id);
                ds.append(&mut notices);
            }
            reg.remove(id);
            proof {
                assert(reg@.sessions =~~= step(s0, id, line@).sessions);
                assert(delivery_views(ds@) =~~= step(s0, id, line@).deliveries);
            }
            Outcome { deliveries: ds, closed: true }
        },
        crate::command::Command::Cap => {
            let ds: Vec<Delivery> = Vec::new();
            proof {
                assert(delivery_views(ds@) =~~= step(s0, id, line@).deliveries);
            }
            Outcome { deliveries: ds, closed: false }
        },
        crate::command::Command::Unknown(verb) => {
            let shown = shown_nick(&me.nick);
            let shown_verb = if verb.as_str().is_empty() {
                String::from_str("Unknown")
            } else {
                verb
            };
            let ds = single(
                id,
                concat5(
                    ":server 421 ",
                    shown.as_str(),
                    " :Unknown command (",
                    shown_verb.as_str(),
                    ")",
                ),
            );
            proof {
                assert(delivery_views(ds@) =~~= step(s0, id, line@).deliveries);
            }
            Outcome { deliveries: ds, closed: false }
        },
    }
}

/// When the claiming session is unregistered, a nickname held by any
/// member is held by a different session.
proof fn lemma_taken_vs_taken_by_other(s: Seq<SessionV>, nick: Seq<char>, id: u64)
    requires
        wf_sessions(s),
        has_id(s, id),
        session_of(s, id).stage == Stage::Unregistered,
    ensures
        nick_taken(s, nick) == nick_taken_by_other(s, nick, id),
{
    let k = idx_of(s, id);
    if nick_taken(s, nick) {
        let w = choose|i: int| 0 <= i < s.len() && is_member(s[i]) && s[i].nick == nick;
        assert(w != k);
        assert(s[w].id != s[k].id);
    }
}

/// The executable terminal cleanup for a dropped transport: removes the
/// session (at most once — a second call finds nothing and does nothing)
/// and returns the departure notices to deliver.
pub fn handle_disconnect(reg: &mut Registry, id: u64) -> (out: Vec<Delivery>)
    requires
        old(reg).wf(),
    ensures
        final(reg).wf(),
        final(reg)@.next_id == old(reg)@.next_id,
        final(reg)@.sessions == disconnect_step(old(reg)@.sessions, id).sessions,
        delivery_views(out@) == disconnect_step(old(reg)@.sessions, id).deliveries,
{
    let ghost s0 = reg@.sessions;
    match reg.get(id) {
        None => {
            let out: Vec<Delivery> = Vec::new();
            proof {
                assert(delivery_views(out@) =~~= disconnect_step(s0, id).deliveries);
            }
            out
        },
        Some(me) => {
            let out: Vec<Delivery> = if me.stage != Stage::Unregistered {
                let notice = concat3(":", me.nick.as_str(), " QUIT :Goodbye!");
                broadcast_except(reg, &notice, id)
            } else {
                Vec::new()
            };
            reg.remove(id);
            proof {
                assert(reg@.sessions =~~= disconnect_step(s0, id).sessions);
                assert(delivery_views(out@) =~~= disconnect_step(s0, id).deliveries);
            }
            out
        },
    }
}

} // verus!
