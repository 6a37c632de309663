use base64::Engine;
use yrs::updates::encoder::Encode;
use yrs::Map as _;
use yrs::{Array, ReadTxn, StateVector, Transact};

use vorticity::broadcast::{self, BroadcastNode};
use vorticity::codec;
use vorticity::context::Context;
use vorticity::error::Error;
use vorticity::g_counter::{self, GCounterNode};
use vorticity::gossip::Replica;
use vorticity::kafka::{self, AdminPayload, KafkaNode};
use vorticity::message::{Body, Event, Message};

fn msg<P>(src: &str, dst: &str, id: Option<usize>, payload: P) -> Message<P> {
    Message {
        src: src.to_string(),
        dst: dst.to_string(),
        body: Body { id, in_reply_to: None, payload },
    }
}

fn cluster(ids: &[&str]) -> Vec<String> {
    ids.iter().map(|s| s.to_string()).collect()
}

fn b64(bytes: &[u8]) -> String {
    base64::engine::general_purpose::URL_SAFE_NO_PAD.encode(bytes)
}

#[test]
fn neighbourhood_of_small_cluster_is_everyone_else() {
    let ids = cluster(&["n1", "n2", "n3"]);
    let r = Replica::new("n2", &ids, &[false, false, false]);
    assert_eq!(r.neighborhood, vec![0, 2]);
    assert_eq!(r.peers, ids);
    assert_eq!(r.known.len(), 3);
}

#[test]
fn neighbourhood_of_large_cluster_follows_draws() {
    let ids = cluster(&["n1", "n2", "n3", "n4", "n5", "n6"]);
    let r = Replica::new("n1", &ids, &[true, true, false, true, false, true]);
    assert_eq!(r.neighborhood, vec![1, 3, 5]);
    let r = Replica::init("n1", &ids);
    assert!(!r.neighborhood.contains(&0));
    assert!(r.neighborhood.iter().all(|&i| i < 6));
}

#[test]
fn gossip_skips_peers_known_to_be_current() {
    let ids = cluster(&["n1", "n2"]);
    let r = Replica::new("n1", &ids, &[true, true]);
    // An empty document equals what the peer is known to hold.
    assert!(r.gossip(&[false]).is_empty());
    let resent = r.gossip(&[true]);
    assert_eq!(resent.len(), 1);
    assert_eq!(resent[0].dst, "n2");
}

#[test]
fn receive_rejects_bad_text() {
    let ids = cluster(&["n1", "n2"]);
    let mut r = Replica::new("n1", &ids, &[true, true]);
    assert_eq!(r.receive("n2", "not base64!", ""), Err(Error::Base64));
    assert_eq!(r.receive("n2", &b64(&[0xff, 0xff, 0xff]), ""), Err(Error::Decode));
    let sv = b64(&StateVector::default().encode_v1());
    assert_eq!(r.receive("n2", &sv, "***"), Err(Error::Base64));
    assert_eq!(r.receive("n2", &sv, &b64(&[0xff, 0xff])), Err(Error::Decode));
}

#[test]
fn codec_round_trip() {
    let text = codec::encode(&[0, 1, 2, 250, 251, 252]);
    assert_eq!(text, "AAEC-vv8");
    assert_eq!(codec::decode(&text).unwrap(), vec![0, 1, 2, 250, 251, 252]);
    // Padding is accepted but not required.
    assert_eq!(codec::decode("AA==").unwrap(), vec![0]);
    assert_eq!(codec::decode("AA").unwrap(), vec![0]);
    assert!(codec::decode("+/").is_err());
}

fn deliver_broadcast(from: &mut BroadcastNode, from_ctx: &mut Context, to: &mut BroadcastNode, to_ctx: &mut Context) {
    let out = from.step(Event::Injected(broadcast::InjectedPayload::Gossip), from_ctx).unwrap();
    for m in out {
        assert_eq!(m.body.id, None);
        assert!(to.step(Event::Message(m), to_ctx).unwrap().is_empty());
    }
}

fn read_set(node: &mut BroadcastNode, ctx: &mut Context) -> Vec<u64> {
    let out = node.step(Event::Message(msg("c", "x", Some(50), broadcast::Payload::Read)), ctx).unwrap();
    match &out[0].body.payload {
        broadcast::Payload::ReadOk { messages } => {
            let mut m = messages.clone();
            m.sort();
            m.dedup();
            m
        },
        other => panic!("unexpected payload {other:?}"),
    }
}

#[test]
fn broadcast_converges_on_two_nodes() {
    let ids = cluster(&["n1", "n2"]);
    let mut c1 = Context::new("n1", &ids);
    let mut c2 = Context::new("n2", &ids);
    let mut n1 = BroadcastNode::init(&c1);
    let mut n2 = BroadcastNode::init(&c2);
    let r1 = n1.step(Event::Message(msg("c", "n1", Some(1), broadcast::Payload::Broadcast { message: 7 })), &mut c1).unwrap();
    assert!(matches!(r1[0].body.payload, broadcast::Payload::BroadcastOk));
    assert_eq!(r1[0].body.in_reply_to, Some(1));
    n2.step(Event::Message(msg("c", "n2", Some(2), broadcast::Payload::Broadcast { message: 9 })), &mut c2).unwrap();
    for _ in 0..2 {
        deliver_broadcast(&mut n1, &mut c1, &mut n2, &mut c2);
        deliver_broadcast(&mut n2, &mut c2, &mut n1, &mut c1);
    }
    assert_eq!(read_set(&mut n1, &mut c1), vec![7, 9]);
    assert_eq!(read_set(&mut n2, &mut c2), vec![7, 9]);
    // After the exchange both replicas have seen the same operations.
    let sv1 = n1.replica.doc.transact().state_vector();
    let sv2 = n2.replica.doc.transact().state_vector();
    assert_eq!(sv1, sv2);
}

#[test]
fn broadcast_keeps_large_messages_and_acks_topology() {
    let ids = cluster(&["n1"]);
    let mut c = Context::new("n1", &ids);
    let mut n = BroadcastNode::init(&c);
    n.add(u64::MAX);
    n.add(0);
    assert_eq!(n.read().unwrap(), vec![u64::MAX, 0]);
    let topo = broadcast::Payload::Topology { topology: vec![("n1".to_string(), vec![])] };
    let out = n.step(Event::Message(msg("c", "n1", Some(4), topo)), &mut c).unwrap();
    assert!(matches!(out[0].body.payload, broadcast::Payload::TopologyOk));
}

#[test]
fn applying_same_gossip_twice_changes_nothing() {
    let ids = cluster(&["n1", "n2"]);
    let mut c1 = Context::new("n1", &ids);
    let mut c2 = Context::new("n2", &ids);
    let mut n1 = BroadcastNode::init(&c1);
    let mut n2 = BroadcastNode::init(&c2);
    n1.add(3);
    n1.add(4);
    let gossip = n1.step(Event::Injected(broadcast::InjectedPayload::Gossip), &mut c1).unwrap();
    assert_eq!(gossip.len(), 1);
    n2.step(Event::Message(gossip[0].clone()), &mut c2).unwrap();
    let once = n2.replica.doc.transact().encode_state_as_update_v1(&StateVector::default());
    n2.step(Event::Message(gossip[0].clone()), &mut c2).unwrap();
    let twice = n2.replica.doc.transact().encode_state_as_update_v1(&StateVector::default());
    assert_eq!(once, twice);
    assert_eq!(n2.read().unwrap(), vec![3, 4]);
}

fn counter_gossip(nodes: &mut [(GCounterNode, Context)]) {
    for i in 0..nodes.len() {
        let out = {
            let (node, ctx) = &mut nodes[i];
            node.step(Event::Injected(g_counter::InjectedPayload::Gossip), ctx).unwrap()
        };
        for m in out {
            let j = nodes.iter().position(|(n, _)| n.replica.node_id == m.dst).unwrap();
            let (node, ctx) = &mut nodes[j];
            node.step(Event::Message(m), ctx).unwrap();
        }
    }
}

#[test]
fn g_counter_sums_all_nodes() {
    let ids = cluster(&["n1", "n2", "n3"]);
    let mut nodes: Vec<(GCounterNode, Context)> = ids
        .iter()
        .map(|id| {
            let ctx = Context::new(id, &ids);
            (GCounterNode::init(&ctx), ctx)
        })
        .collect();
    for (node, ctx) in nodes.iter_mut() {
        for k in 0..2 {
            let id = node.replica.node_id.clone();
            let out = node.step(Event::Message(msg("c", &id, Some(k), g_counter::Payload::Add { delta: 5 })), ctx).unwrap();
            assert!(matches!(out[0].body.payload, g_counter::Payload::AddOk));
        }
    }
    counter_gossip(&mut nodes);
    counter_gossip(&mut nodes);
    for (node, ctx) in nodes.iter_mut() {
        let id = node.replica.node_id.clone();
        let out = node.step(Event::Message(msg("c", &id, Some(9), g_counter::Payload::Read)), ctx).unwrap();
        assert!(matches!(out[0].body.payload, g_counter::Payload::ReadOk { value: 30 }));
    }
}

#[test]
fn g_counter_overflow_is_refused() {
    let ids = cluster(&["n1"]);
    let ctx = Context::new("n1", &ids);
    let mut node = GCounterNode::init(&ctx);
    assert_eq!(node.add(u64::MAX), Err(Error::Overflow));
    assert_eq!(node.read(), Ok(0));
    assert_eq!(node.add(i64::MAX as u64), Ok(()));
    assert_eq!(node.add(1), Err(Error::Overflow));
    assert_eq!(node.read(), Ok(i64::MAX as u64));
}

fn kafka_send(node: &mut KafkaNode, ctx: &mut Context, key: &str, m: &str) -> u64 {
    let payload = kafka::Payload::Send { key: key.to_string(), msg: yrs::Any::from(m) };
    let out = node.step(Event::Message(msg("c", "n1", Some(1), payload)), ctx).unwrap();
    match out[0].body.payload {
        kafka::Payload::SendOk { offset } => offset,
        ref other => panic!("unexpected payload {other:?}"),
    }
}

#[test]
fn kafka_send_then_poll() {
    let ids = cluster(&["n1"]);
    let mut ctx = Context::new("n1", &ids);
    let mut node = KafkaNode::init(&ctx);
    assert_eq!(kafka_send(&mut node, &mut ctx, "k", "a"), 0);
    assert_eq!(kafka_send(&mut node, &mut ctx, "k", "b"), 1);
    let poll = kafka::Payload::Poll { offsets: vec![("k".to_string(), 0)] };
    let out = node.step(Event::Message(msg("c", "n1", Some(3), poll)), &mut ctx).unwrap();
    match &out[0].body.payload {
        kafka::Payload::PollOk { msgs } => {
            assert_eq!(msgs.len(), 1);
            assert_eq!(msgs[0].0, "k");
            assert_eq!(msgs[0].1, vec![(0, yrs::Any::from("a")), (1, yrs::Any::from("b"))]);
        },
        other => panic!("unexpected payload {other:?}"),
    }
}

#[test]
fn kafka_offsets_are_dense_per_key() {
    let ids = cluster(&["n1"]);
    let mut ctx = Context::new("n1", &ids);
    let mut node = KafkaNode::init(&ctx);
    for i in 0..10u64 {
        assert_eq!(kafka_send(&mut node, &mut ctx, "a", "x"), i);
    }
    assert_eq!(kafka_send(&mut node, &mut ctx, "b", "y"), 0);
    assert_eq!(kafka_send(&mut node, &mut ctx, "a", "z"), 10);
}

#[test]
fn kafka_poll_from_offset_and_missing_keys() {
    let ids = cluster(&["n1"]);
    let mut ctx = Context::new("n1", &ids);
    let mut node = KafkaNode::init(&ctx);
    for m in ["a", "b", "c"] {
        kafka_send(&mut node, &mut ctx, "k", m);
    }
    let got = node.poll(&vec![("k".to_string(), 2), ("none".to_string(), 0), ("k".to_string(), 7)]);
    assert_eq!(got.len(), 2);
    assert_eq!(got[0], ("k".to_string(), vec![(2, yrs::Any::from("c"))]));
    assert_eq!(got[1], ("k".to_string(), vec![]));
}

#[test]
fn kafka_commit_and_list_offsets() {
    let ids = cluster(&["n1"]);
    let mut ctx = Context::new("n1", &ids);
    let mut node = KafkaNode::init(&ctx);
    let commit = kafka::Payload::CommitOffsets { offsets: vec![("a".to_string(), 3), ("b".to_string(), 5), ("a".to_string(), 4)] };
    let out = node.step(Event::Message(msg("c", "n1", Some(1), commit)), &mut ctx).unwrap();
    assert!(matches!(out[0].body.payload, kafka::Payload::CommitOffsetsOk));
    let list = kafka::Payload::ListCommittedOffsets { keys: vec!["a".to_string(), "b".to_string(), "c".to_string()] };
    let out = node.step(Event::Message(msg("c", "n1", Some(2), list)), &mut ctx).unwrap();
    match &out[0].body.payload {
        kafka::Payload::ListCommittedOffsetsOk { offsets } => {
            assert_eq!(offsets, &vec![("a".to_string(), 4), ("b".to_string(), 5), ("c".to_string(), 0)]);
        },
        other => panic!("unexpected payload {other:?}"),
    }
}

#[test]
fn kafka_tick_does_nothing() {
    let ids = cluster(&["n1", "n2"]);
    let mut ctx = Context::new("n1", &ids);
    let mut node = KafkaNode::init(&ctx);
    assert!(node.step(Event::Injected(kafka::InjectedPayload::Tick), &mut ctx).unwrap().is_empty());
    assert!(node.step(Event::Eof, &mut ctx).unwrap().is_empty());
}

#[test]
fn send_to_send_ok() {
    let nodes = vec!["node1".to_string(), "node2".to_string()];
    let mut n1_ctx = Context::new("node1", &nodes);
    let mut client_ctx = Context::new("c", &nodes);
    let mut node = KafkaNode::init(&n1_ctx);
    let msg = Message::builder()
        .src("c".to_string())
        .dst("node1".to_string())
        .id(&mut client_ctx)
        .payload(kafka::Payload::Send { key: "test_key".to_string(), msg: yrs::Any::from("test_message") })
        .build()
        .expect("failed to build message");
    let reply = node.step(Event::Message(msg), &mut n1_ctx).expect("step failed");
    assert!(
        matches!(reply[0].body.payload, kafka::Payload::SendOk { offset: 0 }),
        "Expected SendOk with offset 0",
    );
    let log = node.poll(&vec![("test_key".to_string(), 0)]);
    assert_eq!(log[0].1.len(), 1, "Expected one message in the log");
}

#[test]
fn gossip_sends() {
    let nodes = vec!["node1".to_string(), "node2".to_string()];
    let mut n1_ctx = Context::new("node1", &nodes);
    let mut client_ctx = Context::new("c", &nodes);
    let mut node = KafkaNode::init(&n1_ctx);
    let msg = Message::builder()
        .src("c".to_string())
        .dst("node1".to_string())
        .id(&mut client_ctx)
        .payload(kafka::Payload::Send { key: "test_key".to_string(), msg: yrs::Any::from("test_message") })
        .build()
        .unwrap();
    let reply = node.step(Event::Message(msg), &mut n1_ctx).expect("Send step failed");
    assert_eq!(reply.len(), 1, "Failed to receive SendOk reply");
    let log = node.poll(&vec![("test_key".to_string(), 0)]);
    assert_eq!(log[0].1.len(), 1, "Expected one message in the log");

    let out = node.step(Event::Injected(kafka::InjectedPayload::Gossip), &mut n1_ctx).expect("Gossip step failed");
    assert_eq!(out.len(), 1, "Failed to receive reply");
    assert_eq!(out[0].dst, "node2");
    assert!(
        matches!(out[0].body.payload, kafka::Payload::Admin(AdminPayload::Gossip { .. })),
        "Expected Admin Gossip payload",
    );
    let kafka::Payload::Admin(AdminPayload::Gossip { state_vector, diff }) = out[0].body.payload.clone() else {
        panic!("Expected Admin Gossip payload");
    };
    let txn = node.replica.doc.transact();
    assert_eq!(state_vector, b64(&txn.state_vector().encode_v1()), "State vector should be equal");
    assert_eq!(diff, b64(&txn.encode_diff_v1(&StateVector::default())), "Diff should be empty");
}

#[test]
fn kafka_gossip_replicates_logs() {
    let ids = cluster(&["n1", "n2"]);
    let mut c1 = Context::new("n1", &ids);
    let mut c2 = Context::new("n2", &ids);
    let mut n1 = KafkaNode::init(&c1);
    let mut n2 = KafkaNode::init(&c2);
    kafka_send(&mut n1, &mut c1, "k", "a");
    let out = n1.step(Event::Injected(kafka::InjectedPayload::Gossip), &mut c1).unwrap();
    for m in out {
        n2.step(Event::Message(m), &mut c2).unwrap();
    }
    let got = n2.poll(&vec![("k".to_string(), 0)]);
    assert_eq!(got, vec![("k".to_string(), vec![(0, yrs::Any::from("a"))])]);
}

#[test]
fn non_integers_in_the_document_are_malformed() {
    let ids = cluster(&["n1"]);
    let mut c = Context::new("n1", &ids);
    let mut b = BroadcastNode::init(&c);
    b.add(1);
    {
        let array = b.replica.doc.get_or_insert_array("messages");
        let mut txn = b.replica.doc.transact_mut();
        array.push_back(&mut txn, "not a number");
    }
    assert_eq!(b.read(), Err(Error::Malformed));
    let read = b.step(Event::Message(msg("c", "n1", Some(1), broadcast::Payload::Read)), &mut c);
    assert!(matches!(read, Err(Error::Malformed)));

    let mut g = GCounterNode::init(&c);
    {
        let map = g.replica.doc.get_or_insert_map("counter");
        let mut txn = g.replica.doc.transact_mut();
        map.insert(&mut txn, "n1", "five");
    }
    assert_eq!(g.read(), Err(Error::Malformed));
    assert_eq!(g.add(5), Err(Error::Malformed));

    let k = KafkaNode::init(&c);
    {
        let map = k.replica.doc.get_or_insert_map("offsets");
        let mut txn = k.replica.doc.transact_mut();
        map.insert(&mut txn, "a", "x");
    }
    assert_eq!(k.list_committed_offsets(&vec!["b".to_string()]), Ok(vec![("b".to_string(), 0)]));
    assert_eq!(k.list_committed_offsets(&vec!["b".to_string(), "a".to_string()]), Err(Error::Malformed));
}
