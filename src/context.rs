use vstd::prelude::*;

use crate::message::{Body, Message};

verus! {

/// The handle that workload code uses: the node's identity, the cluster's
/// membership, and the allocator of outbound message ids.
#[derive(Debug)]
pub struct Context {
    node_id: String,
    node_ids: Vec<String>,
    next_id: usize,
}

/// No id is listed twice.
pub open spec fn distinct_ids(ids: Seq<String>) -> bool {
    forall|i: int, j: int| 0 <= i < j < ids.len() ==> (#[trigger] ids[i])@ != (#[trigger] ids[j])@
}

/// Whether no id of `ids` is listed twice.
pub fn all_distinct(ids: &[String]) -> (r: bool)
    ensures
        r == distinct_ids(ids@),
{
    let mut j: usize = 0;
    while j < ids.len()
        invariant
            j <= ids@.len(),
            forall|a: int, b: int| 0 <= a < b < j ==> (#[trigger] ids@[a])@ != (#[trigger] ids@[b])@,
        decreases ids@.len() - j,
    {
        let mut i: usize = 0;
        while i < j
            invariant
                i <= j < ids@.len(),
                forall|a: int| 0 <= a < i ==> (#[trigger] ids@[a])@ != ids@[j as int]@,
            decreases j - i,
        {
            if ids[i] == ids[j] {
                assert(ids@[i as int]@ == ids@[j as int]@);
                return false;
            }
            i = i + 1;
        }
        j = j + 1;
    }
    true
}

/// `r` answers `m` under the id `id`: source and destination swapped and
/// `in_reply_to` set to the id of `m`.
pub open spec fn is_reply_to<P, Q>(r: Message<P>, m: Message<Q>, id: usize) -> bool {
    &&& r.src@ == m.dst@
    &&& r.dst@ == m.src@
    &&& r.body.in_reply_to == m.body.id
    &&& r.body.id == Some(id)
}

impl Context {
    /// The id of this node.
    pub closed spec fn node_id_spec(&self) -> Seq<char> {
        self.node_id@
    }

    /// The ids of every node of the cluster.
    pub closed spec fn node_ids_spec(&self) -> Seq<Seq<char>> {
        self.node_ids@.map_values(|s: String| s@)
    }

    /// No node is listed twice in the cluster.
    pub open spec fn distinct_nodes(&self) -> bool {
        forall|i: int, j: int|
            0 <= i < j < self.node_ids_spec().len() ==> (#[trigger] self.node_ids_spec()[i])
                != (#[trigger] self.node_ids_spec()[j])
    }

    /// The id that the next allocation hands out.
    pub closed spec fn next_id(&self) -> usize {
        self.next_id
    }

    /// The ids handed out so far, in the order of allocation.
    pub open spec fn issued(&self) -> Seq<usize> {
        Seq::new(self.next_id() as nat, |i: int| i as usize)
    }

    /// Another id can still be allocated without reuse.
    pub open spec fn can_allocate(&self) -> bool {
        self.next_id() < usize::MAX
    }

    /// `self` is `before` after exactly one id was allocated.
    pub open spec fn allocated_one(&self, before: Context) -> bool {
        &&& self.next_id() == before.next_id() + 1
        &&& self.node_id_spec() == before.node_id_spec()
        &&& self.node_ids_spec() == before.node_ids_spec()
    }

    /// A context for node `node_id` in the cluster `node_ids`; ids start at 0.
    pub fn new(node_id: &str, node_ids: &[String]) -> (r: Context)
        requires
            distinct_ids(node_ids@),
        ensures
            r.distinct_nodes(),
            r.node_id_spec() == node_id@,
            r.node_ids_spec() == node_ids@.map_values(|s: String| s@),
            r.next_id() == 0,
    {
        let mut ids: Vec<String> = Vec::new();
        let mut i: usize = 0;
        while i < node_ids.len()
            invariant
                i <= node_ids@.len(),
                ids@ == node_ids@.take(i as int),
            decreases node_ids@.len() - i,
        {
            ids.push(node_ids[i].clone());
            i = i + 1;
            assert(node_ids@.take(i as int) == node_ids@.take(i - 1).push(node_ids@[i - 1]));
        }
        assert(node_ids@.take(node_ids@.len() as int) == node_ids@);
        Context { node_id: node_id.to_owned(), node_ids: ids, next_id: 0 }
    }

    /// The id that the next allocation will hand out.
    pub fn msg_id(&self) -> (r: usize)
        ensures
            r == self.next_id(),
    {
        self.next_id
    }

    /// Allocates a fresh message id: one never handed out before.
    pub fn next_msg_id(&mut self) -> (r: usize)
        requires
            old(self).can_allocate(),
        ensures
            r == old(self).next_id(),
            !old(self).issued().contains(r),
            final(self).issued() == old(self).issued().push(r),
            final(self).allocated_one(*old(self)),
    {
        let id = self.next_id;
        self.next_id = self.next_id + 1;
        proof {
            if old(self).issued().contains(id) {
                let k = choose|k: int| 0 <= k < old(self).issued().len() && old(self).issued()[k] == id;
                assert(k < id);
            }
            assert(self.issued() =~= old(self).issued().push(id));
        }
        id
    }

    /// The id of this node.
    pub fn node_id(&self) -> (r: &str)
        ensures
            r@ == self.node_id_spec(),
    {
        self.node_id.as_str()
    }

    /// The ids of every node of the cluster.
    pub fn node_ids(&self) -> (r: &Vec<String>)
        ensures
            r@.map_values(|s: String| s@) == self.node_ids_spec(),
            self.distinct_nodes() ==> distinct_ids(r@),
    {
        proof {
            if self.distinct_nodes() {
                assert forall|i: int, j: int| 0 <= i < j < self.node_ids@.len() implies
                    (#[trigger] self.node_ids@[i])@ != (#[trigger] self.node_ids@[j])@ by {
                    assert(self.node_ids_spec()[i] == self.node_ids@[i]@);
                    assert(self.node_ids_spec()[j] == self.node_ids@[j]@);
                }
            }
        }
        &self.node_ids
    }

    /// The other nodes of the cluster, in the order of the membership list.
    pub open spec fn neighbors_spec(&self) -> Seq<Seq<char>> {
        self.node_ids_spec().filter(|id: Seq<char>| id != self.node_id_spec())
    }

    /// The ids of the other nodes of the cluster.
    pub fn neighbors(&self) -> (r: Vec<String>)
        ensures
            r@.map_values(|s: String| s@) == self.neighbors_spec(),
    {
        let mut out: Vec<String> = Vec::new();
        let mut i: usize = 0;
        while i < self.node_ids.len()
            invariant
                i <= self.node_ids@.len(),
                out@.map_values(|s: String| s@) == self.node_ids_spec().take(i as int).filter(
                    |id: Seq<char>| id != self.node_id_spec(),
                ),
            decreases self.node_ids@.len() - i,
        {
            let ghost prev = out@;
            if !(self.node_ids[i] == self.node_id) {
                out.push(self.node_ids[i].clone());
            }
            proof {
                let ids = self.node_ids_spec();
                assert(ids.take(i + 1).drop_last() == ids.take(i as int));
                assert(ids.take(i + 1).last() == self.node_ids@[i as int]@);
                reveal(Seq::filter);
                if self.node_ids@[i as int]@ != self.node_id@ {
                    assert(out@.map_values(|s: String| s@) =~= prev.map_values(|s: String| s@).push(
                        self.node_ids@[i as int]@,
                    ));
                }
            }
            i = i + 1;
        }
        assert(self.node_ids_spec().take(self.node_ids@.len() as int) == self.node_ids_spec());
        out
    }

    /// A reply to `msg`: source and destination swapped, `in_reply_to` set to
    /// the id of `msg`, and a fresh id of its own.
    pub fn construct_reply<Payload>(&mut self, msg: &Message<Payload>, payload: Payload) -> (r:
        Message<Payload>)
        requires
            old(self).can_allocate(),
        ensures
            is_reply_to(r, *msg, old(self).next_id()),
            r.body.payload == payload,
            final(self).allocated_one(*old(self)),
    {
        let id = self.next_msg_id();
        Message {
            src: msg.dst.clone(),
            dst: msg.src.clone(),
            body: Body { id: Some(id), in_reply_to: msg.body.id, payload },
        }
    }
}

/// No message id is handed out twice: the ids that a context has issued are
/// pairwise distinct.
pub proof fn lemma_issued_ids_unique(ctx: Context)
    ensures
        ctx.issued().no_duplicates(),
{
}

/// A reply answers exactly one message: if `request` came from the node of
/// `peer` under an id that `peer` issued, the reply that `id` numbers goes
/// back to that node, and exactly one message that the node issued carries
/// the reply's `in_reply_to`.
pub proof fn lemma_reply_answers_one<P, Q>(peer: Context, request: Message<P>, reply: Message<Q>, id: usize)
    requires
        request.src@ == peer.node_id_spec(),
        request.body.id is Some,
        peer.issued().contains(request.body.id.unwrap()),
        is_reply_to(reply, request, id),
    ensures
        reply.dst@ == peer.node_id_spec(),
        reply.body.in_reply_to is Some,
        exists|k: int| 0 <= k < peer.issued().len() && #[trigger] peer.issued()[k] == reply.body.in_reply_to.unwrap(),
        forall|k: int, l: int|
            0 <= k < peer.issued().len() && 0 <= l < peer.issued().len() && #[trigger] peer.issued()[k]
                == reply.body.in_reply_to.unwrap() && #[trigger] peer.issued()[l] == reply.body.in_reply_to.unwrap() ==> k == l,
{
}

} // verus!
