//! Fan-out of one line to a set of sessions.
//!
//! The broadcaster never mutates registry membership and never touches a
//! transport: it turns a snapshot of the target set into a list of
//! deliveries, one per recipient.  Handing each delivery to its session's
//! outbound queue (and the bounded-queue policy for slow receivers) is the
//! transport driver's job outside this crate.

use vstd::prelude::*;

use crate::registry::{targets_all, targets_except, Registry};
use crate::session::{is_member, SessionV};

verus! {

/// One line addressed to one session's outbound handle.
pub struct Delivery {
    pub to: u64,
    pub line: String,
}

/// The mathematical image of a delivery.
#[verifier::ext_equal]
pub struct DeliveryV {
    pub to: u64,
    pub line: Seq<char>,
}

impl View for Delivery {
    type V = DeliveryV;

    open spec fn view(&self) -> DeliveryV {
        DeliveryV { to: self.to, line: self.line@ }
    }
}

/// The images of a list of deliveries.
pub open spec fn delivery_views(s: Seq<Delivery>) -> Seq<DeliveryV> {
    Seq::new(s.len(), |i: int| s[i]@)
}

/// One copy of `line` for each identifier in `targets`, in order.
pub open spec fn fanout(targets: Seq<u64>, line: Seq<char>) -> Seq<DeliveryV> {
    Seq::new(targets.len(), |i: int| DeliveryV { to: targets[i], line })
}

/// Builds one delivery of `line` per identifier in `targets`, in order.
pub fn deliver_to(targets: &Vec<u64>, line: &String) -> (r: Vec<Delivery>)
    ensures
        delivery_views(r@) =~~= fanout(targets@, line@),
{
    let n = targets.len();
    let mut out: Vec<Delivery> = Vec::new();
    let mut i: usize = 0;
    while i < n
        invariant
            i <= n,
            n == targets@.len(),
            out@.len() == i,
            forall|j: int| 0 <= j < i ==> out@[j]@ == (DeliveryV { to: targets@[j], line: line@ }),
        decreases n - i,
    {
        out.push(Delivery { to: targets[i], line: line.clone() });
        i += 1;
    }
    out
}

/// Delivers `line` to every current member of the registry.
pub fn broadcast_all(reg: &Registry, line: &String) -> (r: Vec<Delivery>)
    ensures
        delivery_views(r@) =~~= fanout(targets_all(reg@.sessions), line@),
{
    let targets = reg.snapshot_all();
    deliver_to(&targets, line)
}

/// Delivers `line` to every current member of the registry except the
/// session carrying `excluded_id` — the sender never receives an echo.
pub fn broadcast_except(reg: &Registry, line: &String, excluded_id: u64) -> (r: Vec<Delivery>)
    ensures
        delivery_views(r@) =~~= fanout(targets_except(reg@.sessions, excluded_id), line@),
{
    let targets = reg.snapshot_except(excluded_id);
    deliver_to(&targets, line)
}

/// The broadcast target set is exactly the members other than the excluded
/// session: every other member's identifier appears, and the excluded
/// session's never does.
pub proof fn lemma_targets_except_iff(s: Seq<SessionV>, excluded_id: u64, id: u64)
    ensures
        targets_except(s, excluded_id).contains(id) <==> (id != excluded_id && exists|i: int|
            0 <= i < s.len() && is_member(s[i]) && s[i].id == id),
    decreases s.len(),
{
    if s.len() == 0 {
    } else {
        lemma_targets_except_iff(s.drop_last(), excluded_id, id);
        let rest = targets_except(s.drop_last(), excluded_id);
        let whole = targets_except(s, excluded_id);
        if is_member(s.last()) && s.last().id != excluded_id {
            assert(whole == rest.push(s.last().id));
            if rest.contains(id) {
                let w = choose|i: int| 0 <= i < rest.len() && rest[i] == id;
                assert(whole[w] == id);
            }
            if id == s.last().id {
                assert(whole[whole.len() - 1] == id);
            }
        }
        if whole.contains(id) {
            let w = choose|i: int| 0 <= i < whole.len() && whole[i] == id;
            if is_member(s.last()) && s.last().id != excluded_id {
                if w < whole.len() - 1 {
                    assert(rest[w] == id);
                }
            } else {
                assert(rest[w] == id);
            }
        }
        if id != excluded_id && exists|i: int| 0 <= i < s.len() && is_member(s[i]) && s[i].id
            == id {
            let i = choose|i: int| 0 <= i < s.len() && is_member(s[i]) && s[i].id == id;
            if i < s.len() - 1 {
                assert(s.drop_last()[i] == s[i]);
            }
        }
    }
}

/// In a well-formed table no identifier appears twice among the targets:
/// each recipient gets the broadcast exactly once.
pub proof fn lemma_targets_except_distinct(s: Seq<SessionV>, excluded_id: u64)
    requires
        crate::registry::wf_sessions(s),
    ensures
        forall|i: int, j: int|
            0 <= i < j < targets_except(s, excluded_id).len() ==> targets_except(
                s,
                excluded_id,
            )[i] != targets_except(s, excluded_id)[j],
    decreases s.len(),
{
    if s.len() > 0 {
        let d = s.drop_last();
        assert(forall|i: int| 0 <= i < d.len() ==> d[i] == s[i]);
        assert(crate::registry::wf_sessions(d));
        lemma_targets_except_distinct(d, excluded_id);
        let rest = targets_except(d, excluded_id);
        if is_member(s.last()) && s.last().id != excluded_id {
            lemma_targets_except_iff(d, excluded_id, s.last().id);
            if rest.contains(s.last().id) {
                let w = choose|i: int|
                    0 <= i < d.len() && is_member(d[i]) && d[i].id == s.last().id;
                assert(s[w].id == s[s.len() - 1].id);
                assert(false);
            }
            let whole = targets_except(s, excluded_id);
            assert(whole == rest.push(s.last().id));
            assert forall|i: int, j: int| 0 <= i < j < whole.len() implies whole[i]
                != whole[j] by {
                if j < whole.len() - 1 {
                    assert(whole[i] == rest[i] && whole[j] == rest[j]);
                } else {
                    assert(whole[i] == rest[i]);
                    assert(rest.contains(rest[i]));
                }
            }
        }
    }
}

/// A broadcast never reaches the excluded sender.
pub proof fn lemma_excluded_never_hit(s: Seq<SessionV>, excluded_id: u64)
    ensures
        !targets_except(s, excluded_id).contains(excluded_id),
{
    lemma_targets_except_iff(s, excluded_id, excluded_id);
}

} // verus!
