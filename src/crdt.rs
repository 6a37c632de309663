//! The replicated document, a yrs CRDT, seen through named views of what it
//! holds. Each wrapper below makes one yrs call inside its own transaction.
use vstd::prelude::*;

use yrs::types::ToJson;
use yrs::updates::decoder::Decode;
use yrs::updates::encoder::Encode;
use yrs::Map as _;
use yrs::{Array, ReadTxn, Transact};

verus! {

#[verifier::external_type_specification]
#[verifier::external_body]
pub struct ExDoc(yrs::Doc);

#[verifier::external_type_specification]
#[verifier::external_body]
pub struct ExStateVector(yrs::StateVector);

#[verifier::external_type_specification]
#[verifier::external_body]
pub struct ExUpdate(yrs::Update);

#[verifier::external_type_specification]
#[verifier::external_body]
pub struct ExAny(yrs::Any);

#[verifier::external_type_specification]
#[verifier::external_body]
pub struct ExUpdateError(yrs::error::UpdateError);

/// Relies on the derived `Clone` of `yrs::Any`: a copy of the same JSON value.
pub assume_specification[ <yrs::Any as Clone>::clone ](a: &yrs::Any) -> (r: yrs::Any)
    ensures
        r == *a,
;

/// The entries of the document's `messages` array, each read as an `i64`
/// (`None` where an entry is not one).
pub uninterp spec fn doc_messages(d: yrs::Doc) -> Seq<Option<i64>>;

/// The slots of the document's `counter` map, each read as an `i64`.
pub uninterp spec fn doc_counter(d: yrs::Doc) -> Map<Seq<char>, Option<i64>>;

/// The keys of the document's `logs` map that hold an array, with the
/// entries of that array read as JSON values.
pub uninterp spec fn doc_logs(d: yrs::Doc) -> Map<Seq<char>, Seq<yrs::Any>>;

/// The entries of the document's `offsets` map, each read as an `i64`.
pub uninterp spec fn doc_offsets(d: yrs::Doc) -> Map<Seq<char>, Option<i64>>;

/// The state vector of the document: what it has seen of each client.
pub uninterp spec fn doc_state_vector(d: yrs::Doc) -> yrs::StateVector;

/// The clock of each client that a state vector records.
pub uninterp spec fn sv_clocks(sv: yrs::StateVector) -> Map<u64, u32>;

/// The v1 binary encoding of a state vector.
pub uninterp spec fn sv_encoding(sv: yrs::StateVector) -> Seq<u8>;

/// The state vector that v1 bytes decode to, if they are one.
pub uninterp spec fn sv_decoding(b: Seq<u8>) -> Option<yrs::StateVector>;

/// The v1 update that brings a replica whose state vector records `clocks`
/// up to the document.
pub uninterp spec fn diff_encoding(d: yrs::Doc, clocks: Map<u64, u32>) -> Seq<u8>;

/// Decoding bytes as a v1 update: whether the decoder returns on them at
/// all (it panics on some malformed input, such as block lengths whose sum
/// overflows a `u32` clock in builds with overflow checks), and the update
/// they decode to, if they are one.
pub uninterp spec fn update_decoding(b: Seq<u8>) -> (bool, Option<yrs::Update>);

/// Merging update `u` into document `d`: whether the merge returns at all
/// (it panics on some decodable updates, such as one that lists a client the
/// document knows with no blocks), the document after it, and whether it
/// reported success.
pub uninterp spec fn merged(d: yrs::Doc, u: yrs::Update) -> (bool, yrs::Doc, bool);

/// The state vector records at least one write.
pub open spec fn has_writes(sv: yrs::StateVector) -> bool {
    sv_clocks(sv) != Map::<u64, u32>::empty()
}

/// Relies on `yrs::Doc::new`: a fresh document holds no data at all. Its
/// four roots are created here, once, so that reads never write.
#[verifier::external_body]
pub fn new_doc() -> (r: yrs::Doc)
    ensures
        doc_messages(r) =~= Seq::empty(),
        doc_counter(r) =~= Map::empty(),
        doc_logs(r) =~= Map::empty(),
        doc_offsets(r) =~= Map::empty(),
{
    let doc = yrs::Doc::new();
    doc.get_or_insert_array("messages");
    doc.get_or_insert_map("counter");
    doc.get_or_insert_map("logs");
    doc.get_or_insert_map("offsets");
    doc
}

/// The document is unchanged but for its `messages` array.
pub open spec fn only_messages_changed(a: yrs::Doc, b: yrs::Doc) -> bool {
    &&& doc_counter(a) == doc_counter(b)
    &&& doc_logs(a) == doc_logs(b)
    &&& doc_offsets(a) == doc_offsets(b)
}

/// Relies on `yrs::Array::push_back`: appends one integer to `messages`.
#[verifier::external_body]
pub fn push_message(doc: &mut yrs::Doc, m: i64)
    ensures
        has_writes(doc_state_vector(*final(doc))),
        doc_messages(*final(doc)) == doc_messages(*old(doc)).push(Some(m)),
        only_messages_changed(*old(doc), *final(doc)),
{
    let array = doc.get_or_insert_array("messages");
    let mut txn = doc.transact_mut();
    array.push_back(&mut txn, m);
}

/// Relies on `yrs::Array::iter`: every entry of `messages`, in order.
#[verifier::external_body]
pub fn read_messages(doc: &yrs::Doc) -> (r: Vec<Option<i64>>)
    ensures
        r@ == doc_messages(*doc),
{
    let txn = doc.transact();
    match txn.get_array("messages") {
        Some(array) => array.iter(&txn).map(|v| v.cast::<i64>().ok()).collect(),
        None => Vec::new(),
    }
}

/// Relies on `yrs::Map::get` on `counter`.
#[verifier::external_body]
pub fn counter_get(doc: &yrs::Doc, slot: &str) -> (r: Option<Option<i64>>)
    ensures
        doc_counter(*doc).contains_key(slot@) ==> r == Some(doc_counter(*doc)[slot@]),
        !doc_counter(*doc).contains_key(slot@) ==> r.is_none(),
{
    let txn = doc.transact();
    txn.get_map("counter").and_then(|map| map.get(&txn, slot)).map(|v| v.cast::<i64>().ok())
}

/// Relies on `yrs::Map::insert` on `counter`: sets one slot.
#[verifier::external_body]
pub fn counter_set(doc: &mut yrs::Doc, slot: &str, v: i64)
    ensures
        has_writes(doc_state_vector(*final(doc))),
        doc_counter(*final(doc)) == doc_counter(*old(doc)).insert(slot@, Some(v)),
        doc_messages(*final(doc)) == doc_messages(*old(doc)),
        doc_logs(*final(doc)) == doc_logs(*old(doc)),
        doc_offsets(*final(doc)) == doc_offsets(*old(doc)),
{
    let map = doc.get_or_insert_map("counter");
    let mut txn = doc.transact_mut();
    map.insert(&mut txn, slot, v);
}

/// `entries` lists the map `m` once each, in some order.
pub open spec fn enumerates<V>(entries: Seq<(Seq<char>, V)>, m: Map<Seq<char>, V>) -> bool {
    &&& entries.len() == m.dom().len()
    &&& forall|i: int, j: int|
        0 <= i < j < entries.len() ==> (#[trigger] entries[i]).0 != (#[trigger] entries[j]).0
    &&& forall|i: int|
        0 <= i < entries.len() ==> m.contains_key((#[trigger] entries[i]).0) && m[entries[i].0]
            == entries[i].1
}

/// Relies on `yrs::Map::iter` on `counter`: each slot once, in the map's own order.
#[verifier::external_body]
pub fn counter_entries(doc: &yrs::Doc) -> (r: Vec<(String, Option<i64>)>)
    ensures
        enumerates(r@.map_values(|e: (String, Option<i64>)| (e.0@, e.1)), doc_counter(*doc)),
{
    let txn = doc.transact();
    match txn.get_map("counter") {
        Some(map) => map.iter(&txn).map(|(k, v)| (k.to_string(), v.cast::<i64>().ok())).collect(),
        None => Vec::new(),
    }
}

/// Relies on `yrs::Map::get` on `logs`: whether `key` holds an array.
#[verifier::external_body]
pub fn log_exists(doc: &yrs::Doc, key: &str) -> (r: bool)
    ensures
        r == doc_logs(*doc).contains_key(key@),
{
    let txn = doc.transact();
    match txn.get_map("logs").and_then(|map| map.get(&txn, key)) {
        Some(yrs::Out::YArray(_)) => true,
        _ => false,
    }
}

/// Relies on `yrs::Map::insert` on `logs`: puts an empty array under `key`.
#[verifier::external_body]
pub fn log_create(doc: &mut yrs::Doc, key: &str)
    ensures
        doc_logs(*final(doc)) == doc_logs(*old(doc)).insert(key@, Seq::empty()),
        doc_messages(*final(doc)) == doc_messages(*old(doc)),
        doc_counter(*final(doc)) == doc_counter(*old(doc)),
        doc_offsets(*final(doc)) == doc_offsets(*old(doc)),
        has_writes(doc_state_vector(*final(doc))),
{
    let map = doc.get_or_insert_map("logs");
    let mut txn = doc.transact_mut();
    map.insert(&mut txn, key, yrs::ArrayPrelim::default());
}

/// Relies on `yrs::Array::push_back` on the array of `key` in `logs`.
#[verifier::external_body]
pub fn log_push(doc: &mut yrs::Doc, key: &str, msg: yrs::Any)
    requires
        doc_logs(*old(doc)).contains_key(key@),
    ensures
        has_writes(doc_state_vector(*final(doc))),
        doc_logs(*final(doc)) == doc_logs(*old(doc)).insert(
            key@,
            doc_logs(*old(doc))[key@].push(msg),
        ),
        doc_messages(*final(doc)) == doc_messages(*old(doc)),
        doc_counter(*final(doc)) == doc_counter(*old(doc)),
        doc_offsets(*final(doc)) == doc_offsets(*old(doc)),
{
    let map = doc.get_or_insert_map("logs");
    let mut txn = doc.transact_mut();
    match map.get(&txn, key) {
        Some(yrs::Out::YArray(array)) => {
            array.push_back(&mut txn, msg);
        },
        _ => {},
    }
}

/// Relies on `yrs::Array::len` on the array of `key` in `logs`.
#[verifier::external_body]
pub fn log_len(doc: &yrs::Doc, key: &str) -> (r: u32)
    requires
        doc_logs(*doc).contains_key(key@),
    ensures
        r == doc_logs(*doc)[key@].len(),
{
    let txn = doc.transact();
    match txn.get_map("logs").and_then(|map| map.get(&txn, key)) {
        Some(yrs::Out::YArray(array)) => array.len(&txn),
        _ => 0,
    }
}

/// Relies on `yrs::Array::iter` on the array of `key` in `logs`, each entry
/// read with `ToJson::to_json`.
#[verifier::external_body]
pub fn log_read(doc: &yrs::Doc, key: &str) -> (r: Option<Vec<yrs::Any>>)
    ensures
        doc_logs(*doc).contains_key(key@) ==> r is Some && r.unwrap()@ == doc_logs(*doc)[key@],
        !doc_logs(*doc).contains_key(key@) ==> r is None,
{
    let txn = doc.transact();
    match txn.get_map("logs").and_then(|map| map.get(&txn, key)) {
        Some(yrs::Out::YArray(array)) => Some(array.iter(&txn).map(|v| v.to_json(&txn)).collect()),
        _ => None,
    }
}

/// Relies on `yrs::Map::get` on `offsets`.
#[verifier::external_body]
pub fn offset_get(doc: &yrs::Doc, key: &str) -> (r: Option<Option<i64>>)
    ensures
        doc_offsets(*doc).contains_key(key@) ==> r == Some(doc_offsets(*doc)[key@]),
        !doc_offsets(*doc).contains_key(key@) ==> r.is_none(),
{
    let txn = doc.transact();
    txn.get_map("offsets").and_then(|map| map.get(&txn, key)).map(|v| v.cast::<i64>().ok())
}

/// Relies on `yrs::Map::insert` on `offsets`: sets one entry.
#[verifier::external_body]
pub fn offset_set(doc: &mut yrs::Doc, key: &str, v: i64)
    ensures
        has_writes(doc_state_vector(*final(doc))),
        doc_offsets(*final(doc)) == doc_offsets(*old(doc)).insert(key@, Some(v)),
        doc_messages(*final(doc)) == doc_messages(*old(doc)),
        doc_counter(*final(doc)) == doc_counter(*old(doc)),
        doc_logs(*final(doc)) == doc_logs(*old(doc)),
{
    let map = doc.get_or_insert_map("offsets");
    let mut txn = doc.transact_mut();
    map.insert(&mut txn, key, v);
}

/// Relies on `ReadTxn::state_vector`.
#[verifier::external_body]
pub fn state_vector(doc: &yrs::Doc) -> (r: yrs::StateVector)
    ensures
        r == doc_state_vector(*doc),
{
    doc.transact().state_vector()
}

/// Relies on `ReadTxn::encode_diff_v1`: what a replica at `sv` lacks.
#[verifier::external_body]
pub fn encode_diff(doc: &yrs::Doc, sv: &yrs::StateVector) -> (r: Vec<u8>)
    ensures
        r@ == diff_encoding(*doc, sv_clocks(*sv)),
{
    doc.transact().encode_diff_v1(sv)
}

/// Relies on `Encode::encode_v1` for a state vector.
#[verifier::external_body]
pub fn encode_state_vector(sv: &yrs::StateVector) -> (r: Vec<u8>)
    ensures
        r@ == sv_encoding(*sv),
{
    sv.encode_v1()
}

/// Relies on `Decode::decode_v1` for a state vector.
#[verifier::external_body]
pub fn decode_state_vector(b: &[u8]) -> (r: Option<yrs::StateVector>)
    ensures
        r == sv_decoding(b@),
{
    yrs::StateVector::decode_v1(b).ok()
}

/// Relies on `Decode::decode_v1` for an update.
#[verifier::external_body]
pub fn decode_update(b: &[u8]) -> (r: Option<yrs::Update>)
    requires
        update_decoding(b@).0,
    ensures
        r == update_decoding(b@).1,
{
    yrs::Update::decode_v1(b).ok()
}

/// Relies on `TransactionMut::apply_update`: merges an update into the
/// document. What the document then holds depends on the document and the
/// update alone, and so does whether the merge reports success.
#[verifier::external_body]
pub fn apply_update(doc: &mut yrs::Doc, u: yrs::Update) -> (r: Result<(), yrs::error::UpdateError>)
    requires
        merged(*old(doc), u).0,
    ensures
        *final(doc) == merged(*old(doc), u).1,
        r is Ok <==> merged(*old(doc), u).2,
{
    doc.transact_mut().apply_update(u)
}

/// Relies on the `PartialEq` of `yrs::StateVector`: equal clocks, client by client.
#[verifier::external_body]
pub fn same_state_vector(a: &yrs::StateVector, b: &yrs::StateVector) -> (r: bool)
    ensures
        r == (sv_clocks(*a) == sv_clocks(*b)),
{
    a == b
}

} // verus!
