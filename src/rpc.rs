//! The pending-RPC table: each entry binds the messages that one RPC sent to
//! the incoming message that caused it and to the caller's continuation
//! state, until a reply settles it.
use vstd::prelude::*;

use crate::message::{Message, MessageSet};

pub mod lin_kv;

verus! {

/// What a continuation reports after handling a reply.
#[derive(Debug, Clone, Copy, PartialEq, Eq, Structural)]
pub enum CallbackStatus {
    /// More replies are expected: the entry stays.
    MoreWork,
    /// The RPC is done: the entry goes.
    Finished,
}

/// One pending RPC.
pub struct CallbackInfo<Payload, State, RpcPayload> {
    /// The incoming message whose handling issued the RPC.
    pub unhandled_incoming_msg: Message<Payload>,
    /// The caller's continuation state.
    pub state: State,
    /// The messages that the RPC sent.
    pub sent_msgs: MessageSet<RpcPayload>,
}

impl<Payload, State, RpcPayload> CallbackInfo<Payload, State, RpcPayload> {
    pub fn new(orig_msg: Message<Payload>, state: State, sent_msgs: MessageSet<RpcPayload>) -> (r: Self)
        ensures
            r.unhandled_incoming_msg == orig_msg,
            r.state == state,
            r.sent_msgs == sent_msgs,
    {
        CallbackInfo { unhandled_incoming_msg: orig_msg, state, sent_msgs }
    }

    /// `msg` answers one of the sent messages and reaches the node that the
    /// incoming message that caused the RPC reached.
    pub open spec fn matches_spec(&self, msg: Message<RpcPayload>) -> bool {
        self.sent_msgs.matches_spec(msg) && self.unhandled_incoming_msg.dst@ == msg.dst@
    }

    pub fn matches(&self, msg: &Message<RpcPayload>) -> (r: bool)
        ensures
            r == self.matches_spec(*msg),
    {
        self.sent_msgs.is_matching_reply(msg) && self.unhandled_incoming_msg.dst == msg.dst
    }
}

/// The index of the first entry that `msg` matches, if any.
pub open spec fn first_match<P, S, R>(entries: Seq<CallbackInfo<P, S, R>>, msg: Message<R>) -> Option<int>
    decreases entries.len(),
{
    if entries.len() == 0 {
        None
    } else {
        match first_match(entries.drop_last(), msg) {
            Some(i) => Some(i),
            None => if entries.last().matches_spec(msg) {
                Some(entries.len() - 1)
            } else {
                None
            },
        }
    }
}

/// The first entry that `msg` matches.
pub fn find_match<P, S, R>(entries: &Vec<CallbackInfo<P, S, R>>, msg: &Message<R>) -> (r: Option<usize>)
    ensures
        match first_match(entries@, *msg) {
            Some(i) => r is Some && r.unwrap() as int == i,
            None => r is None,
        },
        r is Some ==> r.unwrap() < entries@.len() && entries@[r.unwrap() as int].matches_spec(*msg),
{
    let mut i: usize = 0;
    while i < entries.len()
        invariant
            i <= entries@.len(),
            first_match(entries@.take(i as int), *msg) is None,
        decreases entries@.len() - i,
    {
        assert(entries@.take(i as int + 1).drop_last() == entries@.take(i as int));
        if entries[i].matches(msg) {
            proof {
                lemma_first_match_prefix(entries@, *msg, i as int + 1);
                lemma_first_match_range(entries@.take(i as int + 1), *msg);
            }
            return Some(i);
        }
        i = i + 1;
    }
    assert(entries@.take(entries@.len() as int) == entries@);
    None
}

/// The first match is an index of the sequence.
proof fn lemma_first_match_range<P, S, R>(entries: Seq<CallbackInfo<P, S, R>>, msg: Message<R>)
    ensures
        first_match(entries, msg) matches Some(i) ==> 0 <= i < entries.len(),
    decreases entries.len(),
{
    if entries.len() > 0 {
        lemma_first_match_range(entries.drop_last(), msg);
    }
}

/// A match found in a prefix is the first match of the whole sequence.
proof fn lemma_first_match_prefix<P, S, R>(entries: Seq<CallbackInfo<P, S, R>>, msg: Message<R>, k: int)
    requires
        0 <= k <= entries.len(),
        first_match(entries.take(k), msg) is Some,
    ensures
        first_match(entries, msg) == first_match(entries.take(k), msg),
    decreases entries.len() - k,
{
    if k < entries.len() {
        assert(entries.take(k + 1).drop_last() == entries.take(k));
        lemma_first_match_prefix(entries, msg, k + 1);
    } else {
        assert(entries.take(k) == entries);
    }
}

/// Removes and returns the entry at `idx` when its continuation is
/// `Finished`; keeps it on `MoreWork`.
pub fn settle<P, S, R>(entries: &mut Vec<CallbackInfo<P, S, R>>, idx: usize, status: CallbackStatus) -> (r:
    Option<CallbackInfo<P, S, R>>)
    requires
        idx < old(entries)@.len(),
    ensures
        status == CallbackStatus::Finished ==> final(entries)@ == old(entries)@.remove(idx as int) && r
            == Some(old(entries)@[idx as int]),
        status == CallbackStatus::MoreWork ==> final(entries)@ == old(entries)@ && r is None,
{
    match status {
        CallbackStatus::Finished => Some(entries.remove(idx)),
        CallbackStatus::MoreWork => None,
    }
}

/// When no two entries wait on the same id, a reply matches at most one
/// entry.
pub proof fn lemma_reply_matches_one<P, S, R>(entries: Seq<CallbackInfo<P, S, R>>, msg: Message<R>)
    requires
        forall|i: int, j: int, a: int, b: int|
            0 <= i < entries.len() && 0 <= j < entries.len() && i != j && 0 <= a
                < entries[i].sent_msgs.ids@.len() && 0 <= b < entries[j].sent_msgs.ids@.len()
                ==> #[trigger] entries[i].sent_msgs.ids@[a] != #[trigger] entries[j].sent_msgs.ids@[b],
    ensures
        forall|i: int, j: int|
            0 <= i < entries.len() && 0 <= j < entries.len() && (#[trigger] entries[i]).matches_spec(msg)
                && (#[trigger] entries[j]).matches_spec(msg) ==> i == j,
{
    assert forall|i: int, j: int|
        0 <= i < entries.len() && 0 <= j < entries.len() && (#[trigger] entries[i]).matches_spec(msg)
            && (#[trigger] entries[j]).matches_spec(msg) implies i == j by {
        if i != j {
            let x = msg.body.in_reply_to.unwrap();
            let a = choose|a: int| 0 <= a < entries[i].sent_msgs.ids@.len() && entries[i].sent_msgs.ids@[a] == x;
            let b = choose|b: int| 0 <= b < entries[j].sent_msgs.ids@.len() && entries[j].sent_msgs.ids@[b] == x;
            assert(entries[i].sent_msgs.ids@[a] != entries[j].sent_msgs.ids@[b]);
        }
    }
}

} // verus!
