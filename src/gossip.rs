//! Anti-entropy replication: a replica of the document, what each peer was
//! last seen to hold, and the gossip that brings peers up to date.
use vstd::prelude::*;

use crate::codec::{base64_bytes, base64_text};
use crate::crdt::{diff_encoding, doc_state_vector, merged, sv_clocks, sv_decoding, sv_encoding, update_decoding};
use crate::context::distinct_ids;
use crate::error::Error;
use crate::message::{Body, Message};

verus! {

/// Relies on `rand::random_ratio`: `true` with probability
/// `numerator / denominator`; it panics unless `0 < denominator` and
/// `numerator <= denominator`.
pub assume_specification[ rand::random_ratio ](numerator: u32, denominator: u32) -> (r: bool)
    requires
        0 < denominator,
        numerator <= denominator,
    ensures
        numerator == 0 ==> !r,
        numerator == denominator ==> r,
;

/// Relies on the `Default` of `yrs::StateVector`: one that has seen nothing.
#[verifier::external_body]
fn empty_state_vector() -> (r: yrs::StateVector)
    ensures
        sv_clocks(r) =~= Map::empty(),
{
    yrs::StateVector::default()
}

/// Below this many nodes a replica gossips with every other node.
pub const SMALL_CLUSTER: usize = 5;

/// One gossip message: the update a peer lacks and our state vector, both as
/// URL-safe base64 text.
#[derive(Debug, Clone)]
pub struct Gossip {
    pub dst: String,
    pub diff: String,
    pub state_vector: String,
}

/// A workload payload that can carry gossip.
pub trait GossipPayload: Sized {
    /// The payload is gossip with this diff and state vector text.
    spec fn carries(&self, diff: Seq<char>, state_vector: Seq<char>) -> bool;

    fn gossip(diff: String, state_vector: String) -> (r: Self)
        ensures
            r.carries(diff@, state_vector@),
    ;
}

/// The gossip messages of a round, as the wire carries them.
pub open spec fn gossip_messages<P: GossipPayload>(src: Seq<char>, plan: Seq<(Seq<char>, Seq<char>, Seq<char>)>, r: Seq<Message<P>>) -> bool {
    &&& r.len() == plan.len()
    &&& forall|k: int|
        0 <= k < r.len() ==> {
            let m = #[trigger] r[k];
            &&& m.src@ == src
            &&& m.dst@ == plan[k].0
            &&& m.body.id is None
            &&& m.body.in_reply_to is None
            &&& m.body.payload.carries(plan[k].1, plan[k].2)
        }
}

/// Turns a round of gossip into messages from `src`; gossip carries no id.
pub fn gossip_to_messages<P: GossipPayload>(src: &String, gossip: Vec<Gossip>) -> (r: Vec<Message<P>>)
    ensures
        gossip_messages(src@, gossip@.map_values(|g: Gossip| gossip_view(g)), r@),
{
    let mut rev: Vec<Gossip> = gossip;
    let ghost all = rev@;
    let mut stack: Vec<Message<P>> = Vec::new();
    // Taken from the back, then reversed, so that the order is kept.
    while rev.len() > 0
        invariant
            rev@ == all.take(rev@.len() as int),
            stack@.len() + rev@.len() == all.len(),
            forall|j: int|
                0 <= j < stack@.len() ==> {
                    let m = #[trigger] stack@[j];
                    let g = all[all.len() - 1 - j];
                    &&& m.src@ == src@
                    &&& m.dst@ == g.dst@
                    &&& m.body.id is None
                    &&& m.body.in_reply_to is None
                    &&& m.body.payload.carries(g.diff@, g.state_vector@)
                },
        decreases rev@.len(),
    {
        let g = rev.pop().unwrap();
        stack.push(
            Message {
                src: src.clone(),
                dst: g.dst,
                body: Body {
                    id: None,
                    in_reply_to: None,
                    payload: P::gossip(g.diff, g.state_vector),
                },
            },
        );
        assert(all.take(rev@.len() as int) == all.take(rev@.len() as int + 1).drop_last());
    }
    let mut out: Vec<Message<P>> = Vec::new();
    let ghost reversed = stack@;
    while stack.len() > 0
        invariant
            stack@ == reversed.take(stack@.len() as int),
            out@.len() + stack@.len() == reversed.len(),
            reversed.len() == all.len(),
            forall|j: int| 0 <= j < out@.len() ==> #[trigger] out@[j] == reversed[reversed.len() - 1 - j],
        decreases stack@.len(),
    {
        let m = stack.pop().unwrap();
        out.push(m);
        assert(reversed.take(stack@.len() as int) == reversed.take(stack@.len() as int + 1).drop_last());
    }
    proof {
        let plan = all.map_values(|g: Gossip| gossip_view(g));
        assert forall|k: int| 0 <= k < out@.len() implies {
            let m = #[trigger] out@[k];
            &&& m.src@ == src@
            &&& m.dst@ == plan[k].0
            &&& m.body.id is None
            &&& m.body.in_reply_to is None
            &&& m.body.payload.carries(plan[k].1, plan[k].2)
        } by {
            assert(out@[k] == reversed[all.len() - 1 - k]);
        }
    }
    out
}

/// Whether node `i` of `ids` belongs to the neighbourhood of `self_id`, given
/// the draw `keep[i]`.
pub open spec fn in_neighborhood(ids: Seq<String>, self_id: Seq<char>, keep: Seq<bool>, i: int) -> bool {
    &&& 0 <= i < ids.len()
    &&& ids[i]@ != self_id
    &&& (ids.len() < SMALL_CLUSTER || keep[i])
}

/// A replica of the document together with the gossip state around it.
pub struct Replica {
    /// The id of this node.
    pub node_id: String,
    /// The replicated document.
    pub doc: yrs::Doc,
    /// The nodes whose state this replica tracks.
    pub peers: Vec<String>,
    /// `known[i]` is the state vector last received from `peers[i]`.
    pub known: Vec<yrs::StateVector>,
    /// The indices into `peers` of the nodes that this replica gossips to,
    /// in increasing order.
    pub neighborhood: Vec<usize>,
}

/// `after` keeps the gossip state of `before`: the node's id, its peers,
/// what is known of each of them, and the neighbourhood.
pub open spec fn same_gossip_state(before: Replica, after: Replica) -> bool {
    &&& after.node_id == before.node_id
    &&& after.peers == before.peers
    &&& after.known == before.known
    &&& after.neighborhood == before.neighborhood
}

/// `r` is a fresh replica's gossip state for `node_id` in the cluster
/// `node_ids`: the peers are the cluster, none is known to hold anything, and
/// the neighbourhood is one that some draws give.
pub open spec fn fresh_gossip_state(r: Replica, node_id: Seq<char>, node_ids: Seq<Seq<char>>) -> bool {
    &&& r.wf()
    &&& r.node_id@ == node_id
    &&& r.peers@.map_values(|s: String| s@) == node_ids
    &&& forall|i: int| 0 <= i < r.known@.len() ==> sv_clocks(#[trigger] r.known@[i]) =~= Map::<u64, u32>::empty()
    &&& exists|keep: Seq<bool>| #[trigger] r.neighborhood_drawn(r.peers@, node_id, keep)
}

/// The gossip that a replica sends to `peers[i]`.
pub open spec fn gossip_to(r: &Replica, i: int) -> (Seq<char>, Seq<char>, Seq<char>) {
    (
        r.peers@[i]@,
        base64_text(diff_encoding(r.doc, sv_clocks(r.known@[i]))),
        base64_text(sv_encoding(doc_state_vector(r.doc))),
    )
}

/// Whether a gossip round sends to `peers[i]`: the peer is not known to be
/// up to date, or the draw `resend` asks for a send anyway.
pub open spec fn sends_to(r: &Replica, i: int, resend: bool) -> bool {
    sv_clocks(r.known@[i]) != sv_clocks(doc_state_vector(r.doc)) || resend
}

/// The gossip of a round, over the first `k` neighbours.
pub open spec fn gossip_plan(r: &Replica, resend: Seq<bool>, k: nat) -> Seq<
    (Seq<char>, Seq<char>, Seq<char>),
>
    decreases k,
{
    if k == 0 {
        Seq::empty()
    } else {
        let prev = gossip_plan(r, resend, (k - 1) as nat);
        let i = r.neighborhood@[k - 1] as int;
        if sends_to(r, i, resend[k - 1]) {
            prev.push(gossip_to(r, i))
        } else {
            prev
        }
    }
}

pub open spec fn gossip_view(g: Gossip) -> (Seq<char>, Seq<char>, Seq<char>) {
    (g.dst@, g.diff@, g.state_vector@)
}

impl Replica {
    /// The neighbourhood is the one that the draws `keep` give.
    pub open spec fn neighborhood_drawn(&self, ids: Seq<String>, self_id: Seq<char>, keep: Seq<bool>) -> bool {
        &&& keep.len() == ids.len()
        &&& forall|i: int|
            0 <= i < ids.len() ==> (in_neighborhood(ids, self_id, keep, i)
                <==> self.neighborhood@.contains(i as usize))
    }

    /// Known state vectors line up with the peers, no peer is listed twice,
    /// and the neighbourhood is an increasing list of peers other than this
    /// node.
    pub open spec fn wf(&self) -> bool {
        &&& self.known@.len() == self.peers@.len()
        &&& distinct_ids(self.peers@)
        &&& forall|k: int|
            0 <= k < self.neighborhood@.len() ==> self.peers@[#[trigger] self.neighborhood@[k] as int]@
                != self.node_id@
        &&& forall|k: int|
            0 <= k < self.neighborhood@.len() ==> (#[trigger] self.neighborhood@[k])
                < self.peers@.len()
        &&& forall|k: int, l: int|
            0 <= k < l < self.neighborhood@.len() ==> (#[trigger] self.neighborhood@[k])
                < (#[trigger] self.neighborhood@[l])
    }

    /// A replica of a fresh document for `node_id` in the cluster `node_ids`.
    /// It gossips to every other node of a small cluster, and in a larger one
    /// to each other node `i` for which `keep[i]` holds. No peer is known to
    /// hold anything yet.
    pub fn new(node_id: &str, node_ids: &[String], keep: &[bool]) -> (r: Replica)
        requires
            keep@.len() == node_ids@.len(),
            distinct_ids(node_ids@),
        ensures
            r.wf(),
            r.node_id@ == node_id@,
            r.peers@ == node_ids@,
            forall|i: int| 0 <= i < r.known@.len() ==> sv_clocks(#[trigger] r.known@[i]) =~= Map::<u64, u32>::empty(),
            r.neighborhood_drawn(node_ids@, node_id@, keep@),
            crate::crdt::doc_messages(r.doc) =~= Seq::empty(),
            crate::crdt::doc_counter(r.doc) =~= Map::empty(),
            crate::crdt::doc_logs(r.doc) =~= Map::empty(),
            crate::crdt::doc_offsets(r.doc) =~= Map::empty(),
    {
        let me = node_id.to_owned();
        let mut peers: Vec<String> = Vec::new();
        let mut known: Vec<yrs::StateVector> = Vec::new();
        let mut neighborhood: Vec<usize> = Vec::new();
        let n = node_ids.len();
        let mut i: usize = 0;
        while i < n
            invariant
                n == node_ids@.len(),
                keep@.len() == n,
                me@ == node_id@,
                i <= n,
                peers@ == node_ids@.take(i as int),
                known@.len() == i,
                forall|j: int| 0 <= j < i ==> sv_clocks(#[trigger] known@[j]) =~= Map::<u64, u32>::empty(),
                forall|k: int| 0 <= k < neighborhood@.len() ==> (#[trigger] neighborhood@[k]) < i,
                forall|k: int| 0 <= k < neighborhood@.len() ==> node_ids@[#[trigger] neighborhood@[k] as int]@ != node_id@,
                forall|k: int, l: int|
                    0 <= k < l < neighborhood@.len() ==> (#[trigger] neighborhood@[k])
                        < (#[trigger] neighborhood@[l]),
                forall|j: int|
                    0 <= j < i ==> (in_neighborhood(node_ids@, node_id@, keep@, j)
                        <==> neighborhood@.contains(j as usize)),
            decreases n - i,
        {
            let id = node_ids[i].clone();
            let chosen = !(id == me) && (n < SMALL_CLUSTER || keep[i]);
            proof {
                assert(chosen == in_neighborhood(node_ids@, node_id@, keep@, i as int));
            }
            let ghost before = neighborhood@;
            if chosen {
                neighborhood.push(i);
            }
            proof {
                assert forall|j: int|
                    0 <= j <= i implies (in_neighborhood(node_ids@, node_id@, keep@, j)
                        <==> neighborhood@.contains(j as usize)) by {
                    if j < i {
                        if neighborhood@.contains(j as usize) && !before.contains(j as usize) {
                            assert(neighborhood@.last() == i);
                        }
                        if before.contains(j as usize) {
                            let k = choose|k: int| 0 <= k < before.len() && before[k] == j as usize;
                            assert(neighborhood@[k] == j as usize);
                        }
                    } else {
                        if !chosen && neighborhood@.contains(j as usize) {
                            let k = choose|k: int| 0 <= k < before.len() && before[k] == j as usize;
                            assert(before[k] < i);
                        }
                        if chosen {
                            assert(neighborhood@[neighborhood@.len() - 1] == i);
                        }
                    }
                }
            }
            peers.push(id);
            known.push(empty_state_vector());
            i = i + 1;
            assert(node_ids@.take(i as int) == node_ids@.take(i - 1).push(node_ids@[i - 1]));
        }
        assert(node_ids@.take(n as int) == node_ids@);
        Replica { node_id: me, doc: crate::crdt::new_doc(), peers, known, neighborhood }
    }

    /// A replica for `node_id` in the cluster `node_ids`, with a neighbourhood
    /// drawn at random: each other node of a larger cluster with probability 3/4.
    pub fn init(node_id: &str, node_ids: &[String]) -> (r: Replica)
        requires
            distinct_ids(node_ids@),
        ensures
            r.wf(),
            r.node_id@ == node_id@,
            r.peers@ == node_ids@,
            forall|i: int| 0 <= i < r.known@.len() ==> sv_clocks(#[trigger] r.known@[i]) =~= Map::<u64, u32>::empty(),
            exists|keep: Seq<bool>| #[trigger] r.neighborhood_drawn(node_ids@, node_id@, keep),
            fresh_gossip_state(r, node_id@, node_ids@.map_values(|s: String| s@)),
            crate::crdt::doc_messages(r.doc) =~= Seq::empty(),
            crate::crdt::doc_counter(r.doc) =~= Map::empty(),
            crate::crdt::doc_logs(r.doc) =~= Map::empty(),
            crate::crdt::doc_offsets(r.doc) =~= Map::empty(),
    {
        let mut keep: Vec<bool> = Vec::new();
        let mut i: usize = 0;
        while i < node_ids.len()
            invariant
                i <= node_ids@.len(),
                keep@.len() == i,
            decreases node_ids@.len() - i,
        {
            keep.push(rand::random_ratio(3, 4));
            i = i + 1;
        }
        Replica::new(node_id, node_ids, keep.as_slice())
    }

    /// The gossip of one round, given the draws `resend[k]` for the `k`-th
    /// neighbour: to each neighbour not known to be up to date, and to the
    /// others where the draw says so, the diff it lacks and our state vector.
    pub fn gossip(&self, resend: &[bool]) -> (r: Vec<Gossip>)
        requires
            self.wf(),
            resend@.len() == self.neighborhood@.len(),
        ensures
            r@.map_values(|g: Gossip| gossip_view(g)) == gossip_plan(
                self,
                resend@,
                self.neighborhood@.len() as nat,
            ),
    {
        let mut out: Vec<Gossip> = Vec::new();
        let local = crate::crdt::state_vector(&self.doc);
        let local_text = crate::codec::encode(crate::crdt::encode_state_vector(&local).as_slice());
        let mut k: usize = 0;
        while k < self.neighborhood.len()
            invariant
                self.wf(),
                resend@.len() == self.neighborhood@.len(),
                k <= self.neighborhood@.len(),
                local == doc_state_vector(self.doc),
                local_text@ == base64_text(sv_encoding(doc_state_vector(self.doc))),
                out@.map_values(|g: Gossip| gossip_view(g)) == gossip_plan(self, resend@, k as nat),
            decreases self.neighborhood@.len() - k,
        {
            let i = self.neighborhood[k];
            let same = crate::crdt::same_state_vector(&self.known[i], &local);
            if !same || resend[k] {
                let diff = crate::crdt::encode_diff(&self.doc, &self.known[i]);
                let g = Gossip {
                    dst: self.peers[i].clone(),
                    diff: crate::codec::encode(diff.as_slice()),
                    state_vector: local_text.clone(),
                };
                out.push(g);
                assert(out@.map_values(|g: Gossip| gossip_view(g)) =~= gossip_plan(
                    self,
                    resend@,
                    k as nat,
                ).push(gossip_to(self, i as int)));
            }
            k = k + 1;
        }
        out
    }

    /// One gossip round: for each neighbour already up to date, a draw with
    /// probability 1/10 decides whether it is sent the gossip anyway.
    pub fn send_gossip(&self) -> (r: Vec<Gossip>)
        requires
            self.wf(),
        ensures
            exists|resend: Seq<bool>|
                resend.len() == self.neighborhood@.len() && r@.map_values(
                    |g: Gossip| gossip_view(g),
                ) == gossip_plan(self, resend, self.neighborhood@.len() as nat),
    {
        let mut resend: Vec<bool> = Vec::new();
        let mut k: usize = 0;
        while k < self.neighborhood.len()
            invariant
                k <= self.neighborhood@.len(),
                resend@.len() == k,
            decreases self.neighborhood@.len() - k,
        {
            resend.push(rand::random_ratio(1, 10));
            k = k + 1;
        }
        self.gossip(resend.as_slice())
    }

    /// The index of `id` among the peers, if it is one.
    fn peer_index(&self, id: &String) -> (r: Option<usize>)
        ensures
            r is Some ==> r.unwrap() < self.peers@.len() && self.peers@[r.unwrap() as int]@ == id@,
            r is None ==> forall|i: int| 0 <= i < self.peers@.len() ==> self.peers@[i]@ != id@,
    {
        let mut i: usize = 0;
        while i < self.peers.len()
            invariant
                i <= self.peers@.len(),
                forall|j: int| 0 <= j < i ==> self.peers@[j]@ != id@,
            decreases self.peers@.len() - i,
        {
            if self.peers[i] == *id {
                return Some(i);
            }
            i = i + 1;
        }
        None
    }

    /// Takes in gossip from `src`: records its state vector as what `src`
    /// holds, then merges its diff into the document. Text that is not
    /// base64 gives `Base64` and bytes that do not decode give `Decode`, with
    /// nothing changed; an update that the document refuses gives `Update`
    /// (the state vector is recorded then all the same).
    ///
    /// yrs can panic while it decodes or merges some malformed diffs and
    /// offers no test that tells them apart beforehand, so the caller must
    /// vouch for the diff.
    pub fn receive(&mut self, src: &str, state_vector: &str, diff: &str) -> (r: Result<(), Error>)
        requires
            old(self).wf(),
            gossip_returns(old(self).doc, diff@),
        ensures
            received(*old(self), *final(self), src@, state_vector@, diff@, match r {
                Ok(()) => None,
                Err(e) => Some(e),
            }),
    {
        let sv_bytes = match crate::codec::decode(state_vector) {
            Ok(b) => b,
            Err(_) => return Err(Error::Base64),
        };
        let sv = match crate::crdt::decode_state_vector(sv_bytes.as_slice()) {
            Some(sv) => sv,
            None => return Err(Error::Decode),
        };
        let diff_bytes = match crate::codec::decode(diff) {
            Ok(b) => b,
            Err(_) => return Err(Error::Base64),
        };
        let update = match crate::crdt::decode_update(diff_bytes.as_slice()) {
            Some(u) => u,
            None => return Err(Error::Decode),
        };
        let src = src.to_owned();
        match self.peer_index(&src) {
            Some(i) => {
                self.known.set(i, sv);
                assert(old(self).peers@[i as int]@ == src@);
            },
            None => {
                assert(!exists|i: int| 0 <= i < old(self).peers@.len() && (#[trigger] old(self).peers@[i])@ == src@);
                self.peers.push(src);
                self.known.push(sv);
                proof {
                    assert forall|k: int, l: int| 0 <= k < l < self.peers@.len() implies
                        (#[trigger] self.peers@[k])@ != (#[trigger] self.peers@[l])@ by {
                        if l == self.peers@.len() - 1 {
                            assert(old(self).peers@[k]@ != src@);
                        } else {
                            assert(old(self).peers@[k] == self.peers@[k]);
                        }
                    }
                    assert forall|k: int| 0 <= k < self.neighborhood@.len() implies self.peers@[#[trigger] self.neighborhood@[k] as int]@
                        != self.node_id@ by {
                        assert(self.peers@[self.neighborhood@[k] as int] == old(self).peers@[self.neighborhood@[k] as int]);
                    }
                    assert(self.peers@.drop_last() =~= old(self).peers@);
                }
            },
        }
        let applied = crate::crdt::apply_update(&mut self.doc, update);
        match applied {
            Ok(()) => Ok(()),
            Err(_) => Err(Error::Update),
        }
    }
}

/// Whether yrs returns at all while it takes in the diff whose base64 text
/// is `diff` on a replica holding `doc`: the decoder returns on its bytes,
/// and the merge returns on the update they decode to.
pub open spec fn gossip_returns(doc: yrs::Doc, diff: Seq<char>) -> bool {
    match base64_bytes(diff) {
        None => true,
        Some(b) => update_decoding(b).0 && match update_decoding(b).1 {
            Some(u) => merged(doc, u).0,
            None => true,
        },
    }
}

/// Why gossip with this text cannot be taken in, if it cannot: the first
/// part that is not base64, or whose bytes do not decode.
pub open spec fn receive_error(state_vector: Seq<char>, diff: Seq<char>) -> Option<Error> {
    match base64_bytes(state_vector) {
        None => Some(Error::Base64),
        Some(svb) => if sv_decoding(svb) is None {
            Some(Error::Decode)
        } else {
            match base64_bytes(diff) {
                None => Some(Error::Base64),
                Some(d) => if update_decoding(d).1 is None {
                    Some(Error::Decode)
                } else {
                    None
                },
            }
        },
    }
}

/// `after` is `before` having taken in gossip from `src`, ending with
/// `failure` (`None` for success).
pub open spec fn received(
    before: Replica,
    after: Replica,
    src: Seq<char>,
    state_vector: Seq<char>,
    diff: Seq<char>,
    failure: Option<Error>,
) -> bool {
    &&& after.wf()
    &&& after.node_id == before.node_id
    &&& after.neighborhood == before.neighborhood
    &&& match receive_error(state_vector, diff) {
        Some(e) => failure == Some(e) && after == before,
        None => {
            let u = update_decoding(base64_bytes(diff).unwrap()).1.unwrap();
            &&& recorded(before, after, src, sv_decoding_of(state_vector).unwrap())
            &&& after.doc == merged(before.doc, u).1
            &&& (failure is None <==> merged(before.doc, u).2)
            &&& (failure is None || failure == Some(Error::Update))
        },
    }
}

/// `after` records `sv` as what `src` holds: in place of what was known of
/// `src` if it is a peer already, else as a new peer at the end; what is
/// known of every other peer stays as it was.
pub open spec fn recorded(before: Replica, after: Replica, src: Seq<char>, sv: yrs::StateVector) -> bool {
    if exists|i: int| 0 <= i < before.peers@.len() && (#[trigger] before.peers@[i])@ == src {
        exists|i: int|
            0 <= i < before.peers@.len() && (#[trigger] before.peers@[i])@ == src && after.peers@
                == before.peers@ && after.known@ == before.known@.update(i, sv)
    } else {
        &&& after.peers@.len() == before.peers@.len() + 1
        &&& after.peers@.drop_last() == before.peers@
        &&& after.peers@.last()@ == src
        &&& after.known@ == before.known@.push(sv)
    }
}

/// The state vector that base64 text stands for, if it stands for one.
pub open spec fn sv_decoding_of(text: Seq<char>) -> Option<yrs::StateVector> {
    match base64_bytes(text) {
        Some(b) => sv_decoding(b),
        None => None,
    }
}

} // verus!
