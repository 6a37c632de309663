//! The grow-only counter workload: each node adds into its own slot of a
//! replicated map, and a read sums every slot.
use vstd::prelude::*;

use crate::context::{is_reply_to, Context};
use crate::crdt::{doc_counter, doc_state_vector, enumerates, has_writes};
use crate::error::Error;
use crate::gossip::{
    fresh_gossip_state, gossip_messages, gossip_returns, gossip_plan, gossip_to_messages, received, same_gossip_state,
    GossipPayload, Replica,
};
use crate::message::{Event, Message};

verus! {

#[derive(Debug, Clone)]
pub enum Payload {
    Add { delta: u64 },
    AddOk,
    Read,
    ReadOk { value: u64 },
    Gossip { diff: String, state_vector: String },
}

/// The signals that the node's timer injects.
#[derive(Debug, Clone, Copy, PartialEq, Eq, Structural)]
pub enum InjectedPayload {
    Gossip,
}

pub struct GCounterNode {
    pub replica: Replica,
}

/// A read of the slots listed by `entries`, summed in that order: the first
/// slot that is not a non-negative integer makes it `Malformed`, and a sum
/// beyond `u64::MAX` makes it `Overflow`.
pub open spec fn read_result(entries: Seq<(Seq<char>, Option<i64>)>) -> Result<u64, Error>
    decreases entries.len(),
{
    if entries.len() == 0 {
        Ok(0)
    } else {
        match read_result(entries.drop_last()) {
            Err(e) => Err(e),
            Ok(t) => match entries.last().1 {
                Some(v) => if v < 0 {
                    Err(Error::Malformed)
                } else if t + v <= u64::MAX {
                    Ok((t + v) as u64)
                } else {
                    Err(Error::Overflow)
                },
                None => Err(Error::Malformed),
            },
        }
    }
}

/// What an add of `delta` to a slot holding `slot` leaves there.
pub open spec fn added(slot: Option<Option<i64>>, delta: u64) -> Result<i64, Error> {
    match slot {
        None => if delta <= i64::MAX {
            Ok(delta as i64)
        } else {
            Err(Error::Overflow)
        },
        Some(None) => Err(Error::Malformed),
        Some(Some(v)) => if v + delta <= i64::MAX {
            Ok((v + delta) as i64)
        } else {
            Err(Error::Overflow)
        },
    }
}

pub open spec fn slot_of(m: Map<Seq<char>, Option<i64>>, k: Seq<char>) -> Option<Option<i64>> {
    if m.contains_key(k) {
        Some(m[k])
    } else {
        None
    }
}

impl GossipPayload for Payload {
    open spec fn carries(&self, diff: Seq<char>, state_vector: Seq<char>) -> bool {
        self matches Payload::Gossip { diff: d, state_vector: s } && d@ == diff && s@ == state_vector
    }

    fn gossip(diff: String, state_vector: String) -> (r: Self) {
        Payload::Gossip { diff, state_vector }
    }
}

impl GCounterNode {
    pub open spec fn wf(&self) -> bool {
        self.replica.wf()
    }

    /// yrs returns while this node takes in `input`: a gossip diff must be
    /// one that yrs decodes and merges without panicking (see
    /// `Replica::receive`); every other event is taken as it comes.
    pub open spec fn can_take(&self, input: Event<Payload, InjectedPayload>) -> bool {
        match input {
            Event::Message(m) => match m.body.payload {
                Payload::Gossip { diff, .. } => gossip_returns(self.replica.doc, diff@),
                _ => true,
            },
            _ => true,
        }
    }

    /// The slot of this node.
    pub open spec fn own_slot(&self) -> Option<Option<i64>> {
        slot_of(doc_counter(self.replica.doc), self.replica.node_id@)
    }

    /// A node with every slot empty and a randomly drawn neighbourhood.
    pub fn init(ctx: &Context) -> (r: GCounterNode)
        requires
            ctx.distinct_nodes(),
        ensures
            r.wf(),
            r.replica.node_id@ == ctx.node_id_spec(),
            fresh_gossip_state(r.replica, ctx.node_id_spec(), ctx.node_ids_spec()),
            doc_counter(r.replica.doc) =~= Map::empty(),
    {
        let replica = Replica::init(ctx.node_id(), ctx.node_ids().as_slice());
        GCounterNode { replica }
    }

    /// Adds `delta` to this node's slot; the other slots stay as they are.
    pub fn add(&mut self, delta: u64) -> (r: Result<(), Error>)
        requires
            old(self).wf(),
        ensures
            final(self).wf(),
            same_gossip_state(old(self).replica, final(self).replica),
            r is Ok ==> has_writes(doc_state_vector(final(self).replica.doc)),
            final(self).replica.node_id == old(self).replica.node_id,
            r is Err ==> *final(self) == *old(self) && r == Err::<(), Error>(added(old(self).own_slot(), delta)->Err_0),
            added(old(self).own_slot(), delta) is Ok <==> r is Ok,
            r is Ok ==> doc_counter(final(self).replica.doc) == doc_counter(old(self).replica.doc).insert(
                old(self).replica.node_id@,
                Some(added(old(self).own_slot(), delta)->Ok_0),
            ),
    {
        let current = crate::crdt::counter_get(&self.replica.doc, self.replica.node_id.as_str());
        let next: i64 = match current {
            None => {
                if delta <= i64::MAX as u64 {
                    delta as i64
                } else {
                    return Err(Error::Overflow);
                }
            },
            Some(None) => return Err(Error::Malformed),
            Some(Some(v)) => {
                let sum: i128 = v as i128 + delta as i128;
                if sum <= i64::MAX as i128 {
                    sum as i64
                } else {
                    return Err(Error::Overflow);
                }
            },
        };
        crate::crdt::counter_set(&mut self.replica.doc, self.replica.node_id.as_str(), next);
        Ok(())
    }

    /// The sum of every slot, in whatever order the map lists them.
    pub fn read(&self) -> (r: Result<u64, Error>)
        ensures
            exists|entries: Seq<(Seq<char>, Option<i64>)>|
                enumerates(entries, doc_counter(self.replica.doc)) && r == #[trigger] read_result(entries),
    {
        let entries = crate::crdt::counter_entries(&self.replica.doc);
        let ghost listed = entries@.map_values(|e: (String, Option<i64>)| (e.0@, e.1));
        let mut total: u64 = 0;
        let mut i: usize = 0;
        while i < entries.len()
            invariant
                i <= entries@.len(),
                listed == entries@.map_values(|e: (String, Option<i64>)| (e.0@, e.1)),
                enumerates(listed, doc_counter(self.replica.doc)),
                read_result(listed.take(i as int)) == Ok::<u64, Error>(total),
            decreases entries@.len() - i,
        {
            assert(listed.take(i as int + 1).drop_last() == listed.take(i as int));
            let bad = match entries[i].1 {
                Some(v) => if v < 0 {
                    Some(Error::Malformed)
                } else if total > u64::MAX - v as u64 {
                    Some(Error::Overflow)
                } else {
                    total = total + v as u64;
                    None
                },
                None => Some(Error::Malformed),
            };
            if let Some(e) = bad {
                proof {
                    lemma_read_stops(listed, i as int + 1, listed.len() as int);
                    assert(listed.take(listed.len() as int) == listed);
                }
                return Err(e);
            }
            i = i + 1;
        }
        assert(listed.take(entries@.len() as int) == listed);
        Ok(total)
    }

    /// Handles one event: `add` adds into this node's slot, `read` sums the
    /// slots, `gossip` is merged; the timer's signal sends a round of gossip.
    pub fn step(&mut self, input: Event<Payload, InjectedPayload>, ctx: &mut Context) -> (r: Result<Vec<Message<Payload>>, Error>)
        requires
            old(self).wf(),
            old(ctx).can_allocate(),
            old(self).can_take(input),
        ensures
            final(self).wf(),
            match input {
                Event::Message(m) => match m.body.payload {
                    Payload::Add { delta } => (added(old(self).own_slot(), delta) is Ok <==> r is Ok)
                        && same_gossip_state(old(self).replica, final(self).replica)
                        && (r is Ok ==> has_writes(doc_state_vector(final(self).replica.doc)))
                        && (r is Ok ==> r.unwrap()@.len() == 1
                            && is_reply_to(r.unwrap()@[0], m, old(ctx).next_id()) && final(ctx).allocated_one(*old(ctx))
                            && r.unwrap()@[0].body.payload == Payload::AddOk
                            && doc_counter(final(self).replica.doc) == doc_counter(old(self).replica.doc).insert(
                                old(self).replica.node_id@,
                                Some(added(old(self).own_slot(), delta)->Ok_0),
                            )),
                    Payload::Read => *final(self) == *old(self) && exists|entries: Seq<(Seq<char>, Option<i64>)>|
                        enumerates(entries, doc_counter(old(self).replica.doc)) && match #[trigger] read_result(entries) {
                            Ok(t) => r is Ok && r.unwrap()@.len() == 1
                                && is_reply_to(r.unwrap()@[0], m, old(ctx).next_id()) && final(ctx).allocated_one(*old(ctx))
                                && r.unwrap()@[0].body.payload == (Payload::ReadOk { value: t }),
                            Err(e) => r == Err::<Vec<Message<Payload>>, Error>(e),
                        },
                    Payload::Gossip { diff, state_vector } => *final(ctx) == *old(ctx) && (r is Ok ==> r.unwrap()@.len() == 0) && received(
                        old(self).replica,
                        final(self).replica,
                        m.src@,
                        state_vector@,
                        diff@,
                        match r {
                            Ok(_) => None,
                            Err(e) => Some(e),
                        },
                    ),
                    _ => r is Ok && r.unwrap()@.len() == 0 && *final(self) == *old(self) && *final(ctx) == *old(ctx),
                },
                Event::Injected(_) => *final(self) == *old(self) && *final(ctx) == *old(ctx) && r is Ok && exists|resend: Seq<bool>|
                    resend.len() == old(self).replica.neighborhood@.len() && gossip_messages(
                        old(self).replica.node_id@,
                        gossip_plan(&old(self).replica, resend, old(self).replica.neighborhood@.len() as nat),
                        r.unwrap()@,
                    ),
                _ => r is Ok && r.unwrap()@.len() == 0 && *final(self) == *old(self) && *final(ctx) == *old(ctx),
            },
    {
        let mut out: Vec<Message<Payload>> = Vec::new();
        match input {
            Event::Message(m) => match &m.body.payload {
                Payload::Add { delta } => {
                    self.add(*delta)?;
                    out.push(ctx.construct_reply(&m, Payload::AddOk));
                },
                Payload::Read => {
                    let value = self.read()?;
                    out.push(ctx.construct_reply(&m, Payload::ReadOk { value }));
                },
                Payload::Gossip { diff, state_vector } => {
                    self.replica.receive(m.src.as_str(), state_vector.as_str(), diff.as_str())?;
                },
                _ => {},
            },
            Event::Injected(_) => {
                let gossip = self.replica.send_gossip();
                out = gossip_to_messages(&self.replica.node_id, gossip);
            },
            _ => {},
        }
        Ok(out)
    }
}

/// Once a read of a prefix fails, every longer prefix fails the same way.
proof fn lemma_read_stops(entries: Seq<(Seq<char>, Option<i64>)>, i: int, k: int)
    requires
        0 <= i <= k <= entries.len(),
        read_result(entries.take(i)) is Err,
    ensures
        read_result(entries.take(k)) == read_result(entries.take(i)),
    decreases k - i,
{
    if k > i {
        assert(entries.take(k).drop_last() == entries.take(k - 1));
        lemma_read_stops(entries, i, k - 1);
    }
}

/// The sum of `deltas`.
pub open spec fn total(deltas: Seq<u64>) -> int
    decreases deltas.len(),
{
    if deltas.len() == 0 {
        0
    } else {
        total(deltas.drop_last()) + deltas.last()
    }
}

proof fn lemma_total_nonneg(deltas: Seq<u64>)
    ensures
        total(deltas) >= 0,
    decreases deltas.len(),
{
    if deltas.len() > 0 {
        lemma_total_nonneg(deltas.drop_last());
    }
}

/// Adds made at one node whose slot starts empty, with no gossip taken in
/// between, leave in its slot the sum of their deltas.
pub proof fn lemma_own_slot_sums_adds(slots: Seq<Option<Option<i64>>>, deltas: Seq<u64>)
    requires
        slots.len() == deltas.len() + 1,
        slots[0] is None,
        forall|j: int|
            0 <= j < deltas.len() ==> added(slots[j], deltas[j]) is Ok && #[trigger] slots[j + 1]
                == Some(Some(added(slots[j], deltas[j])->Ok_0)),
    ensures
        deltas.len() > 0 ==> slots[deltas.len() as int] == Some(Some(total(deltas) as i64)) && total(
            deltas,
        ) <= i64::MAX,
    decreases deltas.len(),
{
    if deltas.len() > 0 {
        let n = deltas.len() - 1;
        assert(deltas.drop_last() =~= deltas.take(n));
        assert(slots[n + 1] == Some(Some(added(slots[n], deltas[n])->Ok_0)));
        if n > 0 {
            let s2 = slots.take(n + 1);
            let d2 = deltas.take(n);
            assert forall|j: int| 0 <= j < d2.len() implies added(s2[j], d2[j]) is Ok && #[trigger] s2[j + 1]
                == Some(Some(added(s2[j], d2[j])->Ok_0)) by {
                assert(slots[j + 1] == Some(Some(added(slots[j], deltas[j])->Ok_0)));
            }
            lemma_own_slot_sums_adds(s2, d2);
            lemma_total_nonneg(d2);
            assert(s2[n] == slots[n]);
            assert(total(deltas) == total(d2) + deltas[n]);
        } else {
            assert(deltas.take(0) =~= Seq::<u64>::empty());
            assert(total(deltas.drop_last()) == 0);
            assert(total(deltas) == deltas[0]);
        }
    }
}

} // verus!
