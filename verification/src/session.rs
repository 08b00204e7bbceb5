//! Per-connection session state and the registration progression.

use vstd::prelude::*;

verus! {

/// Where a session stands in the registration progression.
///
/// A freshly accepted connection is `Unregistered` and carries no nickname.
/// A valid `NICK` moves it to `NickSet`; `USER` then completes registration.
/// The terminal `Closed` stage is represented by removal from the registry,
/// so it does not appear here.
#[derive(Clone, Copy, PartialEq, Eq, Structural, Debug)]
pub enum Stage {
    Unregistered,
    NickSet,
    Registered,
}

/// Server-side state for one connected client.
///
/// `id` is assigned at connection time and never reused while the server
/// runs; `nick` is empty exactly until the session claims a nickname.
pub struct Session {
    pub id: u64,
    pub nick: String,
    pub stage: Stage,
}

/// The mathematical image of a session: identifier, nickname as a sequence
/// of characters, and registration stage.
#[verifier::ext_equal]
pub struct SessionV {
    pub id: u64,
    pub nick: Seq<char>,
    pub stage: Stage,
}

impl View for Session {
    type V = SessionV;

    open spec fn view(&self) -> SessionV {
        SessionV { id: self.id, nick: self.nick@, stage: self.stage }
    }
}

/// A session is a member of the registry (and thus of the room) exactly
/// when it has claimed a nickname.
pub open spec fn is_member(s: SessionV) -> bool {
    s.stage != Stage::Unregistered
}

impl Clone for Session {
    fn clone(&self) -> (r: Self)
        ensures
            r@ == self@,
            r.id == self.id,
            r.stage == self.stage,
    {
        Session { id: self.id, nick: self.nick.clone(), stage: self.stage }
    }
}

} // verus!
