//! A client of the linearizable key-value service `lin-kv`: requests go out
//! as RPCs, and each reply hands back the continuation that waited for it.
use vstd::prelude::*;

use crate::context::Context;
use crate::error::Error;
use crate::message::{Body, Message, MessageSet};
use crate::rpc::{find_match, first_match, settle, CallbackInfo, CallbackStatus};

verus! {

#[derive(Debug, Clone)]
pub struct Read {
    pub key: String,
}

#[derive(Debug, Clone)]
pub struct Write {
    pub key: String,
    pub value: serde_json::Value,
}

#[derive(Debug, Clone)]
pub struct Cas {
    pub key: String,
    pub from: serde_json::Value,
    pub to: serde_json::Value,
    pub create_if_not_exists: Option<bool>,
}

#[derive(Debug, Clone)]
pub enum LinKvPayload {
    Read(Read),
    ReadOk { value: serde_json::Value },
    Write(Write),
    WriteOk,
    Cas(Cas),
    CasOk,
    /// The service refused a request.
    Error { code: u64, text: String },
}

/// The kind of request that an entry waits on.
#[derive(Debug, Clone, Copy, PartialEq, Eq, Structural)]
pub enum Request {
    Read,
    Write,
    Cas,
}

/// How a request ended.
#[derive(Debug)]
pub enum Outcome {
    /// A read found this value.
    Read(serde_json::Value),
    /// A write was done.
    Written,
    /// A compare-and-swap was done.
    Swapped,
    /// The service answered with an error.
    Failed { code: u64, text: String },
}

/// A settled request: the message that caused it, the caller's state, and
/// how it ended.
pub struct Completion<Payload, State> {
    pub orig_msg: Message<Payload>,
    pub state: State,
    pub outcome: Outcome,
}

/// The node id of the key-value service.
pub open spec fn service_id() -> Seq<char> {
    seq!['l', 'i', 'n', '-', 'k', 'v']
}

/// The outcome that `reply` gives to a request of kind `expect`, or `None`
/// where the reply does not answer such a request.
pub open spec fn outcome_of(expect: Request, reply: LinKvPayload) -> Option<Outcome> {
    match (expect, reply) {
        (Request::Read, LinKvPayload::ReadOk { value }) => Some(Outcome::Read(value)),
        (Request::Write, LinKvPayload::WriteOk) => Some(Outcome::Written),
        (Request::Cas, LinKvPayload::CasOk) => Some(Outcome::Swapped),
        (_, LinKvPayload::Error { code, text }) => Some(Outcome::Failed { code, text }),
        _ => None,
    }
}

/// Whether a payload is one of the service's replies.
pub open spec fn is_reply_payload(p: LinKvPayload) -> bool {
    p matches LinKvPayload::ReadOk { .. } || p matches LinKvPayload::WriteOk || p matches LinKvPayload::CasOk
        || p matches LinKvPayload::Error { .. }
}

pub struct LinKv<Payload, State> {
    /// The requests that wait for a reply.
    pub callbacks: Vec<CallbackInfo<Payload, (Request, State), LinKvPayload>>,
}

impl<Payload, State> LinKv<Payload, State> {
    /// Every id that the table waits on is below `next`, and no two entries
    /// wait on the same id: so a reply matches at most one entry.
    pub open spec fn awaits_fresh(&self, next: usize) -> bool {
        &&& forall|i: int, a: int|
            0 <= i < self.callbacks@.len() && 0 <= a < self.callbacks@[i].sent_msgs.ids@.len()
                ==> #[trigger] self.callbacks@[i].sent_msgs.ids@[a] < next
        &&& forall|i: int, j: int, a: int, b: int|
            0 <= i < self.callbacks@.len() && 0 <= j < self.callbacks@.len() && i != j && 0 <= a
                < self.callbacks@[i].sent_msgs.ids@.len() && 0 <= b < self.callbacks@[j].sent_msgs.ids@.len()
                ==> #[trigger] self.callbacks@[i].sent_msgs.ids@[a] != #[trigger] self.callbacks@[j].sent_msgs.ids@[b]
    }

    pub fn new() -> (r: Self)
        ensures
            r.callbacks@.len() == 0,
            forall|next: usize| #[trigger] r.awaits_fresh(next),
    {
        LinKv { callbacks: Vec::new() }
    }

    /// Sends `payload` to the service under a fresh id and records what
    /// waits for the reply.
    fn persist_callback(
        &mut self,
        ctx: &mut Context,
        payload: LinKvPayload,
        expect: Request,
        orig_msg: Message<Payload>,
        state: State,
    ) -> (r: Message<LinKvPayload>)
        requires
            old(ctx).can_allocate(),
        ensures
            r.src@ == old(ctx).node_id_spec(),
            r.dst@ == service_id(),
            r.body.id == Some(old(ctx).next_id()),
            r.body.in_reply_to is None,
            r.body.payload == payload,
            final(ctx).allocated_one(*old(ctx)),
            final(self).callbacks@.len() == old(self).callbacks@.len() + 1,
            final(self).callbacks@.drop_last() == old(self).callbacks@,
            final(self).callbacks@.last().unhandled_incoming_msg == orig_msg,
            final(self).callbacks@.last().state == (expect, state),
            final(self).callbacks@.last().sent_msgs.ids@ == seq![old(ctx).next_id()],
            old(self).awaits_fresh(old(ctx).next_id()) ==> final(self).awaits_fresh(final(ctx).next_id()),
    {
        let id = ctx.next_msg_id();
        proof {
            reveal_strlit("lin-kv");
        }
        let msg = Message {
            src: String::from_str(ctx.node_id()),
            dst: String::from_str("lin-kv"),
            body: Body { id: Some(id), in_reply_to: None, payload: payload.clone() },
        };
        let sent = Message {
            src: String::from_str(ctx.node_id()),
            dst: String::from_str("lin-kv"),
            body: Body { id: Some(id), in_reply_to: None, payload },
        };
        let set = MessageSet::new(vec![msg]);
        assert(set.ids@ =~= seq![id]);
        self.callbacks.push(CallbackInfo::new(orig_msg, (expect, state), set));
        proof {
            if old(self).awaits_fresh(old(ctx).next_id()) {
                let n = self.callbacks@.len() - 1;
                assert forall|i: int, a: int|
                    0 <= i < self.callbacks@.len() && 0 <= a < self.callbacks@[i].sent_msgs.ids@.len()
                        implies #[trigger] self.callbacks@[i].sent_msgs.ids@[a] < ctx.next_id() by {
                    if i < n {
                        assert(self.callbacks@[i] == old(self).callbacks@[i]);
                    }
                }
                assert forall|i: int, j: int, a: int, b: int|
                    0 <= i < self.callbacks@.len() && 0 <= j < self.callbacks@.len() && i != j && 0 <= a
                        < self.callbacks@[i].sent_msgs.ids@.len() && 0 <= b < self.callbacks@[j].sent_msgs.ids@.len()
                        implies #[trigger] self.callbacks@[i].sent_msgs.ids@[a] != #[trigger] self.callbacks@[j].sent_msgs.ids@[b] by {
                    if i < n {
                        assert(self.callbacks@[i] == old(self).callbacks@[i]);
                    }
                    if j < n {
                        assert(self.callbacks@[j] == old(self).callbacks@[j]);
                    }
                }
            }
        }
        sent
    }

    /// Reads `read.key`; the reply completes with the value found.
    pub fn read(&mut self, read: Read, orig_msg: Message<Payload>, state: State, ctx: &mut Context) -> (r:
        Message<LinKvPayload>)
        requires
            old(ctx).can_allocate(),
        ensures
            r.src@ == old(ctx).node_id_spec(),
            r.dst@ == service_id(),
            r.body.id == Some(old(ctx).next_id()),
            r.body.payload == LinKvPayload::Read(read),
            final(ctx).allocated_one(*old(ctx)),
            final(self).callbacks@.drop_last() == old(self).callbacks@,
            final(self).callbacks@.len() == old(self).callbacks@.len() + 1,
            final(self).callbacks@.last().state == (Request::Read, state),
            final(self).callbacks@.last().sent_msgs.ids@ == seq![old(ctx).next_id()],
            final(self).callbacks@.last().unhandled_incoming_msg == orig_msg,
            old(self).awaits_fresh(old(ctx).next_id()) ==> final(self).awaits_fresh(final(ctx).next_id()),
    {
        self.persist_callback(ctx, LinKvPayload::Read(read), Request::Read, orig_msg, state)
    }

    /// Writes `write.value` under `write.key`.
    pub fn write(&mut self, write: Write, orig_msg: Message<Payload>, state: State, ctx: &mut Context) -> (r:
        Message<LinKvPayload>)
        requires
            old(ctx).can_allocate(),
        ensures
            r.src@ == old(ctx).node_id_spec(),
            r.dst@ == service_id(),
            r.body.id == Some(old(ctx).next_id()),
            r.body.payload == LinKvPayload::Write(write),
            final(ctx).allocated_one(*old(ctx)),
            final(self).callbacks@.drop_last() == old(self).callbacks@,
            final(self).callbacks@.len() == old(self).callbacks@.len() + 1,
            final(self).callbacks@.last().state == (Request::Write, state),
            final(self).callbacks@.last().sent_msgs.ids@ == seq![old(ctx).next_id()],
            final(self).callbacks@.last().unhandled_incoming_msg == orig_msg,
            old(self).awaits_fresh(old(ctx).next_id()) ==> final(self).awaits_fresh(final(ctx).next_id()),
    {
        self.persist_callback(ctx, LinKvPayload::Write(write), Request::Write, orig_msg, state)
    }

    /// Replaces `cas.from` by `cas.to` under `cas.key`.
    pub fn cas(&mut self, cas: Cas, orig_msg: Message<Payload>, state: State, ctx: &mut Context) -> (r:
        Message<LinKvPayload>)
        requires
            old(ctx).can_allocate(),
        ensures
            r.src@ == old(ctx).node_id_spec(),
            r.dst@ == service_id(),
            r.body.id == Some(old(ctx).next_id()),
            r.body.payload == LinKvPayload::Cas(cas),
            final(ctx).allocated_one(*old(ctx)),
            final(self).callbacks@.drop_last() == old(self).callbacks@,
            final(self).callbacks@.len() == old(self).callbacks@.len() + 1,
            final(self).callbacks@.last().state == (Request::Cas, state),
            final(self).callbacks@.last().sent_msgs.ids@ == seq![old(ctx).next_id()],
            final(self).callbacks@.last().unhandled_incoming_msg == orig_msg,
            old(self).awaits_fresh(old(ctx).next_id()) ==> final(self).awaits_fresh(final(ctx).next_id()),
    {
        self.persist_callback(ctx, LinKvPayload::Cas(cas), Request::Cas, orig_msg, state)
    }

    /// Finds the request that `reply` answers and how it ended, leaving the
    /// table as it is. With no such request the error is `NoCallback`; with
    /// a reply of the wrong kind it is `WrongEvent`.
    pub fn match_reply(&self, reply: Message<LinKvPayload>) -> (r: Result<(usize, Outcome), Error>)
        ensures
            first_match(self.callbacks@, reply) is None ==> r == Err::<(usize, Outcome), Error>(
                Error::NoCallback { in_reply_to: reply.body.in_reply_to },
            ),
            first_match(self.callbacks@, reply) matches Some(i) ==> match outcome_of(
                self.callbacks@[i].state.0,
                reply.body.payload,
            ) {
                None => r == Err::<(usize, Outcome), Error>(Error::WrongEvent),
                Some(outcome) => r is Ok && r.unwrap().0 as int == i && r.unwrap().1 == outcome,
            },
            r is Ok ==> r.unwrap().0 < self.callbacks@.len(),
    {
        let idx = match find_match(&self.callbacks, &reply) {
            Some(i) => i,
            None => return Err(Error::NoCallback { in_reply_to: reply.body.in_reply_to }),
        };
        let expect = self.callbacks[idx].state.0;
        let outcome = match (expect, reply.body.payload) {
            (Request::Read, LinKvPayload::ReadOk { value }) => Outcome::Read(value),
            (Request::Write, LinKvPayload::WriteOk) => Outcome::Written,
            (Request::Cas, LinKvPayload::CasOk) => Outcome::Swapped,
            (_, LinKvPayload::Error { code, text }) => Outcome::Failed { code, text },
            _ => return Err(Error::WrongEvent),
        };
        Ok((idx, outcome))
    }

    /// Settles the request at `idx` as its continuation says: `Finished`
    /// removes it and hands back the incoming message and the state it
    /// kept; `MoreWork` keeps it waiting for further replies.
    pub fn settle(&mut self, idx: usize, status: CallbackStatus) -> (r: Option<(Message<Payload>, State)>)
        requires
            idx < old(self).callbacks@.len(),
        ensures
            status == CallbackStatus::Finished ==> final(self).callbacks@ == old(self).callbacks@.remove(idx as int)
                && r == Some((old(self).callbacks@[idx as int].unhandled_incoming_msg, old(self).callbacks@[idx as int].state.1)),
            status == CallbackStatus::MoreWork ==> final(self).callbacks@ == old(self).callbacks@ && r is None,
            forall|next: usize| old(self).awaits_fresh(next) ==> #[trigger] final(self).awaits_fresh(next),
    {
        let ghost before = self.callbacks@;
        let removed = settle(&mut self.callbacks, idx, status);
        proof {
            assert forall|next: usize| old(self).awaits_fresh(next) implies #[trigger] self.awaits_fresh(next) by {
                if status == CallbackStatus::Finished {
                    assert forall|i: int| 0 <= i < self.callbacks@.len() implies #[trigger] self.callbacks@[i]
                        == before[if i < idx { i } else { i + 1 }] by {}
                    assert forall|i: int, a: int|
                        0 <= i < self.callbacks@.len() && 0 <= a < self.callbacks@[i].sent_msgs.ids@.len()
                            implies #[trigger] self.callbacks@[i].sent_msgs.ids@[a] < next by {
                        let k = if i < idx { i } else { i + 1 };
                        assert(self.callbacks@[i] == before[k]);
                    }
                    assert forall|i: int, j: int, a: int, b: int|
                        0 <= i < self.callbacks@.len() && 0 <= j < self.callbacks@.len() && i != j && 0 <= a
                            < self.callbacks@[i].sent_msgs.ids@.len() && 0 <= b < self.callbacks@[j].sent_msgs.ids@.len()
                            implies #[trigger] self.callbacks@[i].sent_msgs.ids@[a] != #[trigger] self.callbacks@[j].sent_msgs.ids@[b] by {
                        let k = if i < idx { i } else { i + 1 };
                        let l = if j < idx { j } else { j + 1 };
                        assert(self.callbacks@[i] == before[k]);
                        assert(self.callbacks@[j] == before[l]);
                    }
                }
            }
        }
        match removed {
            Some(entry) => {
                let (_, state) = entry.state;
                Some((entry.unhandled_incoming_msg, state))
            },
            None => None,
        }
    }

    /// Settles the request that `reply` answers as finished, as a read, a
    /// write or a compare-and-swap is once its reply has come. With no such
    /// request the error is `NoCallback`; with a reply of the wrong kind it is
    /// `WrongEvent` and the request keeps waiting. Otherwise the request
    /// leaves the table and its completion is returned.
    pub fn handle_reply(&mut self, reply: Message<LinKvPayload>) -> (r: Result<Completion<Payload, State>, Error>)
        ensures
            first_match(old(self).callbacks@, reply) is None ==> r == Err::<Completion<Payload, State>, Error>(
                Error::NoCallback { in_reply_to: reply.body.in_reply_to },
            ) && final(self).callbacks@ == old(self).callbacks@,
            first_match(old(self).callbacks@, reply) matches Some(i) ==> {
                let entry = old(self).callbacks@[i];
                match outcome_of(entry.state.0, reply.body.payload) {
                    None => r == Err::<Completion<Payload, State>, Error>(Error::WrongEvent)
                        && final(self).callbacks@ == old(self).callbacks@,
                    Some(outcome) => r is Ok && r.unwrap().orig_msg == entry.unhandled_incoming_msg
                        && r.unwrap().state == entry.state.1 && r.unwrap().outcome == outcome
                        && final(self).callbacks@ == old(self).callbacks@.remove(i),
                }
            },
            forall|next: usize| old(self).awaits_fresh(next) ==> #[trigger] final(self).awaits_fresh(next),
    {
        let (idx, outcome) = self.match_reply(reply)?;
        match self.settle(idx, CallbackStatus::Finished) {
            Some((orig_msg, state)) => Ok(Completion { orig_msg, state, outcome }),
            None => Err(Error::WrongEvent),
        }
    }

    /// Takes in a message from the service: replies settle their request,
    /// requests are ignored, and a message without `in_reply_to` is
    /// `NotReply`.
    pub fn step(&mut self, event: Message<LinKvPayload>) -> (r: Result<Option<Completion<Payload, State>>, Error>)
        ensures
            forall|next: usize| old(self).awaits_fresh(next) ==> #[trigger] final(self).awaits_fresh(next),
            event.body.in_reply_to is None ==> r == Err::<Option<Completion<Payload, State>>, Error>(Error::NotReply)
                && final(self).callbacks@ == old(self).callbacks@,
            event.body.in_reply_to is Some && !is_reply_payload(event.body.payload) ==> r
                == Ok::<Option<Completion<Payload, State>>, Error>(None) && final(self).callbacks@
                == old(self).callbacks@,
            event.body.in_reply_to is Some && is_reply_payload(event.body.payload) && first_match(old(self).callbacks@, event) is None
                ==> r == Err::<Option<Completion<Payload, State>>, Error>(Error::NoCallback { in_reply_to: event.body.in_reply_to }),
            event.body.in_reply_to is Some && is_reply_payload(event.body.payload) ==> (first_match(old(self).callbacks@, event) matches Some(i)
                ==> if outcome_of(old(self).callbacks@[i].state.0, event.body.payload) is Some {
                    r is Ok && r.unwrap() is Some
                } else {
                    r == Err::<Option<Completion<Payload, State>>, Error>(Error::WrongEvent)
                }),
    {
        if event.body.in_reply_to.is_none() {
            return Err(Error::NotReply);
        }
        match &event.body.payload {
            LinKvPayload::Read(_) | LinKvPayload::Write(_) | LinKvPayload::Cas(_) => Ok(None),
            _ => {
                let done = self.handle_reply(event)?;
                Ok(Some(done))
            },
        }
    }
}

/// A reply settles at most one request: in a table whose awaited ids are
/// fresh (as `read`, `write`, `cas` and settling keep them, with ids from one
/// context), no two entries match the same reply.
pub proof fn lemma_one_request_per_reply<Payload, State>(
    kv: LinKv<Payload, State>,
    next: usize,
    reply: Message<LinKvPayload>,
)
    requires
        kv.awaits_fresh(next),
    ensures
        forall|i: int, j: int|
            0 <= i < kv.callbacks@.len() && 0 <= j < kv.callbacks@.len() && (#[trigger] kv.callbacks@[i]).matches_spec(reply)
                && (#[trigger] kv.callbacks@[j]).matches_spec(reply) ==> i == j,
{
    crate::rpc::lemma_reply_matches_one(kv.callbacks@, reply);
}

} // verus!
