//! The broadcast workload: a grow-only set of integers, replicated by gossip.
use vstd::prelude::*;

use crate::context::{is_reply_to, Context};
use crate::crdt::{doc_messages, doc_state_vector, has_writes, only_messages_changed};
use crate::error::Error;
use crate::gossip::{
    fresh_gossip_state, gossip_messages, gossip_returns, gossip_plan, gossip_to_messages, received, same_gossip_state,
    GossipPayload, Replica,
};
use crate::message::{Event, Message};

verus! {

#[derive(Debug, Clone)]
pub enum Payload {
    Broadcast { message: u64 },
    BroadcastOk,
    Read,
    ReadOk { messages: Vec<u64> },
    Topology { topology: Vec<(String, Vec<String>)> },
    TopologyOk,
    Gossip { diff: String, state_vector: String },
}

/// The signals that the node's timer injects.
#[derive(Debug, Clone, Copy, PartialEq, Eq, Structural)]
pub enum InjectedPayload {
    Gossip,
}

pub struct BroadcastNode {
    pub replica: Replica,
}

/// The messages that the document's entries stand for, or `None` where an
/// entry is not an integer.
pub open spec fn stored_messages(entries: Seq<Option<i64>>) -> Option<Seq<u64>>
    decreases entries.len(),
{
    if entries.len() == 0 {
        Some(Seq::empty())
    } else {
        match (stored_messages(entries.drop_last()), entries.last()) {
            (Some(prev), Some(v)) => Some(prev.push(v as u64)),
            _ => None,
        }
    }
}

impl GossipPayload for Payload {
    open spec fn carries(&self, diff: Seq<char>, state_vector: Seq<char>) -> bool {
        self matches Payload::Gossip { diff: d, state_vector: s } && d@ == diff && s@ == state_vector
    }

    fn gossip(diff: String, state_vector: String) -> (r: Self) {
        Payload::Gossip { diff, state_vector }
    }
}

impl BroadcastNode {
    pub open spec fn wf(&self) -> bool {
        self.replica.wf()
    }

    /// yrs returns while this node takes in `input`: a gossip diff must be
    /// one that yrs decodes and merges without panicking (see
    /// `Replica::receive`); every other event is taken as it comes.
    pub open spec fn can_take(&self, input: Event<Payload, InjectedPayload>) -> bool {
        match input {
            Event::Message(m) => match m.body.payload {
                Payload::Gossip { diff, .. } => gossip_returns(self.replica.doc, diff@),
                _ => true,
            },
            _ => true,
        }
    }

    /// The messages that the node holds, or `None` if its document holds an
    /// entry that is not one.
    pub open spec fn messages(&self) -> Option<Seq<u64>> {
        stored_messages(doc_messages(self.replica.doc))
    }

    /// A node with an empty set and a randomly drawn neighbourhood.
    pub fn init(ctx: &Context) -> (r: BroadcastNode)
        requires
            ctx.distinct_nodes(),
        ensures
            r.wf(),
            r.replica.node_id@ == ctx.node_id_spec(),
            fresh_gossip_state(r.replica, ctx.node_id_spec(), ctx.node_ids_spec()),
            r.messages() == Some(Seq::<u64>::empty()),
    {
        let replica = Replica::init(ctx.node_id(), ctx.node_ids().as_slice());
        BroadcastNode { replica }
    }

    /// Adds `message` to the set.
    pub fn add(&mut self, message: u64)
        requires
            old(self).wf(),
        ensures
            final(self).wf(),
            same_gossip_state(old(self).replica, final(self).replica),
            has_writes(doc_state_vector(final(self).replica.doc)),
            final(self).replica.peers == old(self).replica.peers,
            final(self).replica.known == old(self).replica.known,
            final(self).replica.neighborhood == old(self).replica.neighborhood,
            final(self).replica.node_id == old(self).replica.node_id,
            doc_messages(final(self).replica.doc) == doc_messages(old(self).replica.doc).push(Some(message as i64)),
            old(self).messages() is Some ==> final(self).messages() == Some(old(self).messages().unwrap().push(message)),
    {
        crate::crdt::push_message(&mut self.replica.doc, #[verifier::truncate] (message as i64));
        proof {
            let e = doc_messages(self.replica.doc);
            assert(e.drop_last() == doc_messages(old(self).replica.doc));
            assert(((message as i64) as u64) == message) by (bit_vector);
        }
    }

    /// Every message of the set, in the order the document keeps them.
    pub fn read(&self) -> (r: Result<Vec<u64>, Error>)
        ensures
            self.messages() is None ==> r == Err::<Vec<u64>, Error>(Error::Malformed),
            self.messages() is Some ==> r is Ok && r.unwrap()@ == self.messages().unwrap(),
    {
        let entries = crate::crdt::read_messages(&self.replica.doc);
        let mut out: Vec<u64> = Vec::new();
        let mut i: usize = 0;
        while i < entries.len()
            invariant
                i <= entries@.len(),
                entries@ == doc_messages(self.replica.doc),
                stored_messages(entries@.take(i as int)) == Some(out@),
            decreases entries@.len() - i,
        {
            let v = match entries[i] {
                Some(v) => v,
                None => {
                    proof {
                        lemma_stored_none(entries@, i as int);
                    }
                    return Err(Error::Malformed);
                },
            };
            out.push(#[verifier::truncate] (v as u64));
            i = i + 1;
            assert(entries@.take(i as int).drop_last() == entries@.take(i - 1));
        }
        assert(entries@.take(entries@.len() as int) == entries@);
        Ok(out)
    }

    /// Handles one event: `broadcast` adds to the set, `read` returns it,
    /// `topology` is acknowledged, `gossip` is merged; the timer's signal
    /// sends a round of gossip.
    pub fn step(&mut self, input: Event<Payload, InjectedPayload>, ctx: &mut Context) -> (r: Result<Vec<Message<Payload>>, Error>)
        requires
            old(self).wf(),
            old(ctx).can_allocate(),
            old(self).can_take(input),
        ensures
            final(self).wf(),
            match input {
                Event::Message(m) => match m.body.payload {
                    Payload::Broadcast { message } => r is Ok && r.unwrap()@.len() == 1
                        && same_gossip_state(old(self).replica, final(self).replica)
                        && has_writes(doc_state_vector(final(self).replica.doc))
                        && is_reply_to(r.unwrap()@[0], m, old(ctx).next_id()) && final(ctx).allocated_one(*old(ctx))
                        && r.unwrap()@[0].body.payload == Payload::BroadcastOk
                        && doc_messages(final(self).replica.doc) == doc_messages(old(self).replica.doc).push(Some(message as i64))
                        && (old(self).messages() is Some ==> final(self).messages() == Some(old(self).messages().unwrap().push(message))),
                    Payload::Read => *final(self) == *old(self) && (old(self).messages() is None ==> r == Err::<Vec<Message<Payload>>, Error>(Error::Malformed))
                        && (old(self).messages() is Some ==> r is Ok && r.unwrap()@.len() == 1
                            && is_reply_to(r.unwrap()@[0], m, old(ctx).next_id()) && final(ctx).allocated_one(*old(ctx))
                            && (r.unwrap()@[0].body.payload matches Payload::ReadOk { messages } && messages@ == old(self).messages().unwrap())),
                    Payload::Topology { .. } => *final(self) == *old(self) && r is Ok && r.unwrap()@.len() == 1
                        && is_reply_to(r.unwrap()@[0], m, old(ctx).next_id()) && final(ctx).allocated_one(*old(ctx))
                        && r.unwrap()@[0].body.payload == Payload::TopologyOk,
                    Payload::Gossip { diff, state_vector } => *final(ctx) == *old(ctx) && (r is Ok ==> r.unwrap()@.len() == 0) && received(
                        old(self).replica,
                        final(self).replica,
                        m.src@,
                        state_vector@,
                        diff@,
                        match r {
                            Ok(_) => None,
                            Err(e) => Some(e),
                        },
                    ),
                    _ => r is Ok && r.unwrap()@.len() == 0 && *final(self) == *old(self) && *final(ctx) == *old(ctx),
                },
                Event::Injected(_) => *final(self) == *old(self) && *final(ctx) == *old(ctx) && r is Ok && exists|resend: Seq<bool>|
                    resend.len() == old(self).replica.neighborhood@.len() && gossip_messages(
                        old(self).replica.node_id@,
                        gossip_plan(&old(self).replica, resend, old(self).replica.neighborhood@.len() as nat),
                        r.unwrap()@,
                    ),
                _ => r is Ok && r.unwrap()@.len() == 0 && *final(self) == *old(self) && *final(ctx) == *old(ctx),
            },
    {
        let mut out: Vec<Message<Payload>> = Vec::new();
        match input {
            Event::Message(m) => match &m.body.payload {
                Payload::Broadcast { message } => {
                    self.add(*message);
                    out.push(ctx.construct_reply(&m, Payload::BroadcastOk));
                },
                Payload::Read => {
                    let messages = self.read()?;
                    out.push(ctx.construct_reply(&m, Payload::ReadOk { messages }));
                },
                Payload::Topology { .. } => {
                    out.push(ctx.construct_reply(&m, Payload::TopologyOk));
                },
                Payload::Gossip { diff, state_vector } => {
                    self.replica.receive(m.src.as_str(), state_vector.as_str(), diff.as_str())?;
                },
                _ => {},
            },
            Event::Injected(_) => {
                let gossip = self.replica.send_gossip();
                out = gossip_to_messages(&self.replica.node_id, gossip);
            },
            _ => {},
        }
        Ok(out)
    }
}

proof fn lemma_stored_none(entries: Seq<Option<i64>>, i: int)
    requires
        0 <= i < entries.len(),
        entries[i] is None,
    ensures
        stored_messages(entries) is None,
    decreases entries.len(),
{
    if i < entries.len() - 1 {
        lemma_stored_none(entries.drop_last(), i);
    }
}

/// Messages broadcast to one node, with no gossip taken in between, are
/// all in what the node reads back, after what it held before and in the
/// order they came.
pub proof fn lemma_broadcasts_kept(docs: Seq<Seq<Option<i64>>>, msgs: Seq<u64>)
    requires
        docs.len() == msgs.len() + 1,
        stored_messages(docs[0]) is Some,
        forall|j: int|
            0 <= j < msgs.len() ==> #[trigger] docs[j + 1] == docs[j].push(Some(msgs[j] as i64)),
    ensures
        stored_messages(docs[msgs.len() as int]) == Some(stored_messages(docs[0]).unwrap() + msgs),
    decreases msgs.len(),
{
    if msgs.len() > 0 {
        let n = msgs.len() - 1;
        lemma_broadcasts_kept(docs.take(n + 1), msgs.take(n));
        assert(docs[n + 1] == docs[n].push(Some(msgs[n] as i64)));
        assert(docs[n + 1].drop_last() == docs[n]);
        let m = msgs[n];
        assert(((m as i64) as u64) == m) by (bit_vector);
        assert(docs.take(n + 1)[n] == docs[n]);
        assert(stored_messages(docs[0]).unwrap() + msgs =~= (stored_messages(docs[0]).unwrap()
            + msgs.take(n)).push(m));
    } else {
        assert(stored_messages(docs[0]).unwrap() + msgs =~= stored_messages(docs[0]).unwrap());
    }
}

} // verus!
