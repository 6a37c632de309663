//! The Kafka-style log workload: append-only logs per key and committed
//! offsets, both held in the replicated document.
use vstd::prelude::*;

use crate::context::{is_reply_to, Context};
use crate::crdt::{doc_logs, doc_offsets, doc_state_vector, has_writes};
use crate::error::Error;
use crate::gossip::{
    fresh_gossip_state, gossip_messages, gossip_returns, gossip_plan, gossip_to_messages, received, same_gossip_state,
    GossipPayload, Replica,
};
use crate::message::{Event, Message};

verus! {

#[derive(Debug, Clone)]
pub enum Payload {
    Send { key: String, msg: yrs::Any },
    SendOk { offset: u64 },
    Poll { offsets: Vec<(String, u64)> },
    PollOk { msgs: Vec<(String, Vec<(u64, yrs::Any)>)> },
    CommitOffsets { offsets: Vec<(String, u64)> },
    CommitOffsetsOk,
    ListCommittedOffsets { keys: Vec<String> },
    ListCommittedOffsetsOk { offsets: Vec<(String, u64)> },
    /// Replication traffic, kept apart from the protocol's own messages.
    Admin(AdminPayload),
}

#[derive(Debug, Clone)]
pub enum AdminPayload {
    Gossip { diff: String, state_vector: String },
}

/// The signals that the node's timer injects.
#[derive(Debug, Clone, Copy, PartialEq, Eq, Structural)]
pub enum InjectedPayload {
    /// Send gossip to the neighbours.
    Gossip,
    /// Reserved for a future heartbeat; it does nothing.
    Tick,
}

impl GossipPayload for Payload {
    open spec fn carries(&self, diff: Seq<char>, state_vector: Seq<char>) -> bool {
        self matches Payload::Admin(AdminPayload::Gossip { diff: d, state_vector: s }) && d@ == diff
            && s@ == state_vector
    }

    fn gossip(diff: String, state_vector: String) -> (r: Self) {
        Payload::Admin(AdminPayload::Gossip { diff, state_vector })
    }
}

/// The log of `key`; a key never written to has an empty log.
pub open spec fn log_of(logs: Map<Seq<char>, Seq<yrs::Any>>, key: Seq<char>) -> Seq<yrs::Any> {
    if logs.contains_key(key) {
        logs[key]
    } else {
        Seq::empty()
    }
}

/// The entries of `log` from offset `from` on, each with its offset.
pub open spec fn entries_from(log: Seq<yrs::Any>, from: int) -> Seq<(u64, yrs::Any)> {
    if from < log.len() {
        Seq::new((log.len() - from) as nat, |j: int| ((from + j) as u64, log[from + j]))
    } else {
        Seq::empty()
    }
}

/// What a poll of `request` returns: for each requested key that has a log,
/// its entries from the requested offset on.
pub open spec fn polled(logs: Map<Seq<char>, Seq<yrs::Any>>, request: Seq<(Seq<char>, u64)>) -> Seq<
    (Seq<char>, Seq<(u64, yrs::Any)>),
>
    decreases request.len(),
{
    if request.len() == 0 {
        Seq::empty()
    } else {
        let prev = polled(logs, request.drop_last());
        let (key, from) = request.last();
        if logs.contains_key(key) {
            prev.push((key, entries_from(logs[key], from as int)))
        } else {
            prev
        }
    }
}

/// The committed offsets after committing `request` in order.
pub open spec fn committed(offsets: Map<Seq<char>, Option<i64>>, request: Seq<(Seq<char>, u64)>) -> Map<
    Seq<char>,
    Option<i64>,
>
    decreases request.len(),
{
    if request.len() == 0 {
        offsets
    } else {
        let (key, offset) = request.last();
        committed(offsets, request.drop_last()).insert(key, Some(offset as i64))
    }
}

/// The committed offset of `key`: 0 where none was committed, `None` where
/// the document holds something that is not an offset.
pub open spec fn committed_offset(offsets: Map<Seq<char>, Option<i64>>, key: Seq<char>) -> Option<u64> {
    if !offsets.contains_key(key) {
        Some(0)
    } else {
        match offsets[key] {
            Some(v) => Some(v as u64),
            None => None,
        }
    }
}

pub open spec fn request_view(r: Seq<(String, u64)>) -> Seq<(Seq<char>, u64)> {
    r.map_values(|e: (String, u64)| (e.0@, e.1))
}

pub open spec fn poll_view(r: Seq<(String, Vec<(u64, yrs::Any)>)>) -> Seq<(Seq<char>, Seq<(u64, yrs::Any)>)> {
    r.map_values(|e: (String, Vec<(u64, yrs::Any)>)| (e.0@, e.1@))
}

/// The entries of `log` from offset `from` on, each with its offset.
fn number_from(log: Vec<yrs::Any>, from: usize) -> (r: Vec<(u64, yrs::Any)>)
    requires
        from <= log@.len(),
    ensures
        r@ == entries_from(log@, from as int),
{
    let mut head = log;
    let n = head.len();
    let ghost all = head@;
    let tail = head.split_off(from);
    let ghost t = tail@;
    let mut rest = tail;
    let mut stack: Vec<yrs::Any> = Vec::new();
    while rest.len() > 0
        invariant
            rest@ == t.take(rest@.len() as int),
            stack@.len() + rest@.len() == t.len(),
            forall|j: int| 0 <= j < stack@.len() ==> #[trigger] stack@[j] == t[t.len() - 1 - j],
        decreases rest@.len(),
    {
        let v = rest.pop().unwrap();
        stack.push(v);
        assert(t.take(rest@.len() as int) == t.take(rest@.len() as int + 1).drop_last());
    }
    let mut out: Vec<(u64, yrs::Any)> = Vec::new();
    while stack.len() > 0
        invariant
            all.len() == from + t.len(),
            t == all.subrange(from as int, all.len() as int),
            all.len() == n,
            out@.len() + stack@.len() == t.len(),
            forall|j: int| 0 <= j < stack@.len() ==> #[trigger] stack@[j] == t[t.len() - 1 - j],
            forall|j: int|
                0 <= j < out@.len() ==> #[trigger] out@[j] == ((from + j) as u64, t[j]),
        decreases stack@.len(),
    {
        let v = stack.pop().unwrap();
        let offset = (from + out.len()) as u64;
        out.push((offset, v));
    }
    assert(out@ =~= entries_from(all, from as int));
    out
}

/// Proof that sends through one node, on one key and with nothing else
/// writing to it, are given the offsets 0, 1, 2, ... in turn: the offsets
/// are dense from 0 and strictly increasing.
pub proof fn lemma_send_offsets_dense(
    key: Seq<char>,
    logs: Seq<Map<Seq<char>, Seq<yrs::Any>>>,
    msgs: Seq<yrs::Any>,
    offsets: Seq<u64>,
)
    requires
        logs.len() == msgs.len() + 1,
        offsets.len() == msgs.len(),
        !logs[0].contains_key(key),
        forall|j: int|
            0 <= j < msgs.len() ==> #[trigger] logs[j + 1] == logs[j].insert(
                key,
                log_of(logs[j], key).push(msgs[j]),
            ) && offsets[j] == log_of(logs[j], key).len(),
    ensures
        forall|j: int| 0 <= j < offsets.len() ==> #[trigger] offsets[j] == j,
        forall|i: int, j: int| 0 <= i < j < offsets.len() ==> offsets[i] < offsets[j],
{
    assert forall|j: int| 0 <= j <= msgs.len() implies #[trigger] log_of(logs[j], key).len() == j by {
        lemma_log_len(key, logs, msgs, offsets, j);
    }
    assert forall|j: int| 0 <= j < offsets.len() implies #[trigger] offsets[j] == j by {
        assert(logs[j + 1] == logs[j].insert(key, log_of(logs[j], key).push(msgs[j])));
        assert(log_of(logs[j], key).len() == j);
    }
}

proof fn lemma_log_len(
    key: Seq<char>,
    logs: Seq<Map<Seq<char>, Seq<yrs::Any>>>,
    msgs: Seq<yrs::Any>,
    offsets: Seq<u64>,
    j: int,
)
    requires
        logs.len() == msgs.len() + 1,
        offsets.len() == msgs.len(),
        !logs[0].contains_key(key),
        forall|k: int|
            0 <= k < msgs.len() ==> #[trigger] logs[k + 1] == logs[k].insert(
                key,
                log_of(logs[k], key).push(msgs[k]),
            ) && offsets[k] == log_of(logs[k], key).len(),
        0 <= j <= msgs.len(),
    ensures
        log_of(logs[j], key).len() == j,
    decreases j,
{
    if j > 0 {
        lemma_log_len(key, logs, msgs, offsets, j - 1);
        assert(logs[(j - 1) + 1] == logs[j - 1].insert(key, log_of(logs[j - 1], key).push(msgs[j - 1])));
    }
}

pub struct KafkaNode {
    pub replica: Replica,
}

impl KafkaNode {
    pub open spec fn wf(&self) -> bool {
        self.replica.wf()
    }

    /// yrs returns while this node takes in `input`: a gossip diff must be
    /// one that yrs decodes and merges without panicking (see
    /// `Replica::receive`); every other event is taken as it comes.
    pub open spec fn can_take(&self, input: Event<Payload, InjectedPayload>) -> bool {
        match input {
            Event::Message(m) => match m.body.payload {
                Payload::Admin(AdminPayload::Gossip { diff, .. }) => gossip_returns(self.replica.doc, diff@),
                _ => true,
            },
            _ => true,
        }
    }

    /// The logs that the node holds.
    pub open spec fn logs(&self) -> Map<Seq<char>, Seq<yrs::Any>> {
        doc_logs(self.replica.doc)
    }

    /// The committed offsets that the node holds.
    pub open spec fn offsets(&self) -> Map<Seq<char>, Option<i64>> {
        doc_offsets(self.replica.doc)
    }

    /// A node with no logs, no committed offsets and a randomly drawn
    /// neighbourhood.
    pub fn init(ctx: &Context) -> (r: KafkaNode)
        requires
            ctx.distinct_nodes(),
        ensures
            r.wf(),
            r.replica.node_id@ == ctx.node_id_spec(),
            fresh_gossip_state(r.replica, ctx.node_id_spec(), ctx.node_ids_spec()),
            r.logs() =~= Map::empty(),
            r.offsets() =~= Map::empty(),
    {
        let replica = Replica::init(ctx.node_id(), ctx.node_ids().as_slice());
        KafkaNode { replica }
    }

    /// Appends `msg` to the log of `key` and returns its offset: the length
    /// of the log before.
    pub fn send(&mut self, key: &str, msg: yrs::Any) -> (r: u64)
        requires
            old(self).wf(),
        ensures
            final(self).wf(),
            same_gossip_state(old(self).replica, final(self).replica),
            has_writes(doc_state_vector(final(self).replica.doc)),
            final(self).replica.node_id == old(self).replica.node_id,
            final(self).logs() == old(self).logs().insert(key@, log_of(old(self).logs(), key@).push(msg)),
            final(self).offsets() == old(self).offsets(),
            r == log_of(old(self).logs(), key@).len(),
    {
        if !crate::crdt::log_exists(&self.replica.doc, key) {
            crate::crdt::log_create(&mut self.replica.doc, key);
        }
        let len = crate::crdt::log_len(&self.replica.doc, key);
        crate::crdt::log_push(&mut self.replica.doc, key, msg);
        len as u64
    }

    /// For each requested key that has a log, its entries from the requested
    /// offset on, each with its offset.
    pub fn poll(&self, offsets: &Vec<(String, u64)>) -> (r: Vec<(String, Vec<(u64, yrs::Any)>)>)
        ensures
            poll_view(r@) == polled(self.logs(), request_view(offsets@)),
    {
        let mut out: Vec<(String, Vec<(u64, yrs::Any)>)> = Vec::new();
        let mut i: usize = 0;
        while i < offsets.len()
            invariant
                i <= offsets@.len(),
                poll_view(out@) == polled(self.logs(), request_view(offsets@.take(i as int))),
            decreases offsets@.len() - i,
        {
            let key = &offsets[i].0;
            let from = offsets[i].1;
            assert(request_view(offsets@.take(i as int + 1)).drop_last() == request_view(offsets@.take(i as int)));
            match crate::crdt::log_read(&self.replica.doc, key.as_str()) {
                Some(log) => {
                    let entries = if from < log.len() as u64 {
                        number_from(log, from as usize)
                    } else {
                        Vec::new()
                    };
                    out.push((key.clone(), entries));
                    assert(poll_view(out@) =~= poll_view(out@.drop_last()).push((key@, entries@)));
                },
                None => {},
            }
            i = i + 1;
        }
        assert(offsets@.take(offsets@.len() as int) == offsets@);
        out
    }

    /// Commits each requested offset in turn.
    pub fn commit_offsets(&mut self, offsets: &Vec<(String, u64)>)
        requires
            old(self).wf(),
        ensures
            final(self).wf(),
            same_gossip_state(old(self).replica, final(self).replica),
            final(self).replica.node_id == old(self).replica.node_id,
            final(self).offsets() == committed(old(self).offsets(), request_view(offsets@)),
            final(self).logs() == old(self).logs(),
    {
        let mut i: usize = 0;
        while i < offsets.len()
            invariant
                i <= offsets@.len(),
                self.wf(),
                same_gossip_state(old(self).replica, self.replica),
                self.offsets() == committed(old(self).offsets(), request_view(offsets@.take(i as int))),
                self.logs() == old(self).logs(),
            decreases offsets@.len() - i,
        {
            assert(request_view(offsets@.take(i as int + 1)).drop_last() == request_view(offsets@.take(i as int)));
            crate::crdt::offset_set(&mut self.replica.doc, offsets[i].0.as_str(), #[verifier::truncate] (offsets[i].1 as i64));
            i = i + 1;
        }
        assert(offsets@.take(offsets@.len() as int) == offsets@);
    }

    /// The committed offset of each requested key, 0 where none was
    /// committed; `Malformed` if the document holds something else there.
    pub fn list_committed_offsets(&self, keys: &Vec<String>) -> (r: Result<Vec<(String, u64)>, Error>)
        ensures
            (forall|i: int| 0 <= i < keys@.len() ==> (#[trigger] committed_offset(self.offsets(), keys@[i]@)) is Some) ==> r is Ok
                && request_view(r.unwrap()@) == keys@.map_values(|k: String| (k@, committed_offset(self.offsets(), k@).unwrap())),
            !(forall|i: int| 0 <= i < keys@.len() ==> (#[trigger] committed_offset(self.offsets(), keys@[i]@)) is Some) ==> r == Err::<Vec<(String, u64)>, Error>(Error::Malformed),
    {
        let mut out: Vec<(String, u64)> = Vec::new();
        let mut i: usize = 0;
        while i < keys.len()
            invariant
                i <= keys@.len(),
                forall|j: int| 0 <= j < i ==> (#[trigger] committed_offset(self.offsets(), keys@[j]@)) is Some,
                request_view(out@) == keys@.take(i as int).map_values(|k: String| (k@, committed_offset(self.offsets(), k@).unwrap())),
            decreases keys@.len() - i,
        {
            let offset = match crate::crdt::offset_get(&self.replica.doc, keys[i].as_str()) {
                None => 0,
                Some(Some(v)) => #[verifier::truncate] (v as u64),
                Some(None) => {
                    assert(committed_offset(self.offsets(), keys@[i as int]@) is None);
                    return Err(Error::Malformed);
                },
            };
            proof {
                assert(offset == committed_offset(self.offsets(), keys@[i as int]@).unwrap());
            }
            let ghost prev = out@;
            out.push((keys[i].clone(), offset));
            assert(request_view(out@) =~= request_view(prev).push((keys@[i as int]@, offset)));
            i = i + 1;
            assert(keys@.take(i as int) == keys@.take(i - 1).push(keys@[i - 1]));
            assert(request_view(out@) =~= keys@.take(i as int).map_values(|k: String| (k@, committed_offset(self.offsets(), k@).unwrap())));
        }
        assert(keys@.take(keys@.len() as int) == keys@);
        Ok(out)
    }

    /// Handles one event: each request is answered with its `_ok` reply;
    /// gossip is merged; the timer's `Gossip` sends a round of gossip and
    /// `Tick` does nothing.
    pub fn step(&mut self, input: Event<Payload, InjectedPayload>, ctx: &mut Context) -> (r: Result<Vec<Message<Payload>>, Error>)
        requires
            old(self).wf(),
            old(ctx).can_allocate(),
            old(self).can_take(input),
        ensures
            final(self).wf(),
            match input {
                Event::Message(m) => match m.body.payload {
                    Payload::Send { key, msg } => r is Ok && r.unwrap()@.len() == 1
                        && same_gossip_state(old(self).replica, final(self).replica)
                        && has_writes(doc_state_vector(final(self).replica.doc))
                        && is_reply_to(r.unwrap()@[0], m, old(ctx).next_id()) && final(ctx).allocated_one(*old(ctx))
                        && r.unwrap()@[0].body.payload == (Payload::SendOk { offset: log_of(old(self).logs(), key@).len() as u64 })
                        && final(self).logs() == old(self).logs().insert(key@, log_of(old(self).logs(), key@).push(msg))
                        && final(self).offsets() == old(self).offsets(),
                    Payload::Poll { offsets } => *final(self) == *old(self) && r is Ok && r.unwrap()@.len() == 1
                        && is_reply_to(r.unwrap()@[0], m, old(ctx).next_id()) && final(ctx).allocated_one(*old(ctx))
                        && (r.unwrap()@[0].body.payload matches Payload::PollOk { msgs }
                            && poll_view(msgs@) == polled(old(self).logs(), request_view(offsets@))),
                    Payload::CommitOffsets { offsets } => r is Ok && r.unwrap()@.len() == 1
                        && same_gossip_state(old(self).replica, final(self).replica)
                        && is_reply_to(r.unwrap()@[0], m, old(ctx).next_id()) && final(ctx).allocated_one(*old(ctx))
                        && r.unwrap()@[0].body.payload == Payload::CommitOffsetsOk
                        && final(self).offsets() == committed(old(self).offsets(), request_view(offsets@))
                        && final(self).logs() == old(self).logs(),
                    Payload::ListCommittedOffsets { keys } => *final(self) == *old(self)
                        && ((forall|i: int| 0 <= i < keys@.len() ==> (#[trigger] committed_offset(old(self).offsets(), keys@[i]@)) is Some) ==> r is Ok
                            && r.unwrap()@.len() == 1
                            && is_reply_to(r.unwrap()@[0], m, old(ctx).next_id()) && final(ctx).allocated_one(*old(ctx))
                            && (r.unwrap()@[0].body.payload matches Payload::ListCommittedOffsetsOk { offsets }
                                && request_view(offsets@) == keys@.map_values(|k: String| (k@, committed_offset(old(self).offsets(), k@).unwrap()))))
                        && (!(forall|i: int| 0 <= i < keys@.len() ==> (#[trigger] committed_offset(old(self).offsets(), keys@[i]@)) is Some)
                            ==> r == Err::<Vec<Message<Payload>>, Error>(Error::Malformed)),
                    Payload::Admin(AdminPayload::Gossip { diff, state_vector }) => *final(ctx) == *old(ctx) && (r is Ok ==> r.unwrap()@.len() == 0) && received(
                        old(self).replica,
                        final(self).replica,
                        m.src@,
                        state_vector@,
                        diff@,
                        match r {
                            Ok(_) => None,
                            Err(e) => Some(e),
                        },
                    ),
                    _ => r is Ok && r.unwrap()@.len() == 0 && *final(self) == *old(self) && *final(ctx) == *old(ctx),
                },
                Event::Injected(InjectedPayload::Gossip) => *final(self) == *old(self) && *final(ctx) == *old(ctx) && r is Ok && exists|resend: Seq<bool>|
                    resend.len() == old(self).replica.neighborhood@.len() && gossip_messages(
                        old(self).replica.node_id@,
                        gossip_plan(&old(self).replica, resend, old(self).replica.neighborhood@.len() as nat),
                        r.unwrap()@,
                    ),
                _ => r is Ok && r.unwrap()@.len() == 0 && *final(self) == *old(self) && *final(ctx) == *old(ctx),
            },
    {
        let mut out: Vec<Message<Payload>> = Vec::new();
        match input {
            Event::Message(m) => match &m.body.payload {
                Payload::Send { key, msg } => {
                    let offset = self.send(key.as_str(), msg.clone());
                    out.push(ctx.construct_reply(&m, Payload::SendOk { offset }));
                },
                Payload::Poll { offsets } => {
                    let msgs = self.poll(offsets);
                    out.push(ctx.construct_reply(&m, Payload::PollOk { msgs }));
                },
                Payload::CommitOffsets { offsets } => {
                    self.commit_offsets(offsets);
                    out.push(ctx.construct_reply(&m, Payload::CommitOffsetsOk));
                },
                Payload::ListCommittedOffsets { keys } => {
                    let offsets = self.list_committed_offsets(keys)?;
                    out.push(ctx.construct_reply(&m, Payload::ListCommittedOffsetsOk { offsets }));
                },
                Payload::Admin(AdminPayload::Gossip { diff, state_vector }) => {
                    self.replica.receive(m.src.as_str(), state_vector.as_str(), diff.as_str())?;
                },
                _ => {},
            },
            Event::Injected(InjectedPayload::Gossip) => {
                let gossip = self.replica.send_gossip();
                out = gossip_to_messages(&self.replica.node_id, gossip);
            },
            _ => {},
        }
        Ok(out)
    }
}

} // verus!
