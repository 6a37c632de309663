use vorticity::context::Context;
use vorticity::echo::{self, EchoNode};
use vorticity::error::{BuildError, Error};
use vorticity::message::{Body, Event, Init, InitPayload, Message, MessageBuilder, MessageSet};
use vorticity::rpc::lin_kv::{Cas, LinKv, LinKvPayload, Outcome, Read, Write};
use vorticity::rpc::CallbackStatus;
use vorticity::runtime::{handshake, route, Route, Runtime};
use vorticity::unique_ids::{self, to_decimal, UniqueNode};

fn msg<P>(src: &str, dst: &str, id: Option<usize>, in_reply_to: Option<usize>, payload: P) -> Message<P> {
    Message {
        src: src.to_string(),
        dst: dst.to_string(),
        body: Body { id, in_reply_to, payload },
    }
}

fn cluster(ids: &[&str]) -> Vec<String> {
    ids.iter().map(|s| s.to_string()).collect()
}

#[test]
fn init_handshake_replies_init_ok() {
    let init = msg(
        "c",
        "n1",
        Some(0),
        None,
        InitPayload::Init(Init { node_id: "n1".to_string(), node_ids: cluster(&["n1"]) }),
    );
    let (ctx, reply) = handshake(&init).unwrap();
    assert_eq!(reply.src, "n1");
    assert_eq!(reply.dst, "c");
    assert_eq!(reply.body.in_reply_to, Some(0));
    assert_eq!(reply.body.id, Some(0));
    assert!(matches!(reply.body.payload, InitPayload::InitOk));
    assert_eq!(ctx.node_id(), "n1");
    assert_eq!(ctx.msg_id(), 1);
}

#[test]
fn handshake_refuses_other_first_message() {
    let first = msg("c", "n1", Some(0), None, InitPayload::InitOk);
    assert!(matches!(handshake(&first), Err(Error::WrongEvent)));
}

#[test]
fn echo_answers_with_same_text() {
    let mut ctx = Context::new("n1", &cluster(&["n1"]));
    ctx.next_msg_id();
    let mut node = EchoNode::init(&ctx);
    assert_eq!(node.id, 1);
    let input = msg("c", "n1", Some(1), None, echo::Payload::Echo { echo: "hi".to_string() });
    let out = node.step(Event::Message(input), &mut ctx);
    assert_eq!(out.len(), 1);
    assert_eq!(out[0].src, "n1");
    assert_eq!(out[0].dst, "c");
    assert_eq!(out[0].body.in_reply_to, Some(1));
    assert_eq!(out[0].body.id, Some(1));
    match &out[0].body.payload {
        echo::Payload::EchoOk { echo } => assert_eq!(echo, "hi"),
        other => panic!("unexpected payload {other:?}"),
    }
}

#[test]
fn echo_ignores_eof_and_echo_ok() {
    let mut ctx = Context::new("n1", &cluster(&["n1"]));
    let mut node = EchoNode::init(&ctx);
    assert!(node.step(Event::Eof, &mut ctx).is_empty());
    let input = msg("c", "n1", Some(1), None, echo::Payload::EchoOk { echo: "x".to_string() });
    assert!(node.step(Event::Message(input), &mut ctx).is_empty());
    assert_eq!(ctx.msg_id(), 0);
}

fn generate(node: &mut UniqueNode, ctx: &mut Context, id: usize) -> String {
    let input = msg("c", ctx.node_id(), Some(id), None, unique_ids::Payload::Generate);
    let out = node.step(Event::Message(input), ctx);
    assert_eq!(out.len(), 1);
    assert_eq!(out[0].body.in_reply_to, Some(id));
    match &out[0].body.payload {
        unique_ids::Payload::GenerateOk { guid } => guid.clone(),
        other => panic!("unexpected payload {other:?}"),
    }
}

#[test]
fn unique_ids_follow_node_and_message_id() {
    let nodes = cluster(&["n1", "n2"]);
    let mut c1 = Context::new("n1", &nodes);
    let mut c2 = Context::new("n2", &nodes);
    // Each node has answered its init first.
    c1.next_msg_id();
    c2.next_msg_id();
    let mut n1 = UniqueNode::init(&c1);
    let mut n2 = UniqueNode::init(&c2);
    let a = generate(&mut n1, &mut c1, 1);
    let b = generate(&mut n1, &mut c1, 2);
    assert_eq!(a, "n1-1");
    assert_eq!(b, "n1-2");
    assert_ne!(a, b);
    let mut seen = vec![a, b];
    for id in 1..20 {
        seen.push(generate(&mut n2, &mut c2, id));
        seen.push(generate(&mut n1, &mut c1, id + 2));
    }
    let mut sorted = seen.clone();
    sorted.sort();
    sorted.dedup();
    assert_eq!(sorted.len(), seen.len());
}

#[test]
fn decimal_digits() {
    assert_eq!(to_decimal(0), "0");
    assert_eq!(to_decimal(7), "7");
    assert_eq!(to_decimal(10), "10");
    assert_eq!(to_decimal(40213), "40213");
    assert_eq!(to_decimal(usize::MAX), usize::MAX.to_string());
}

#[test]
fn message_ids_are_never_reused() {
    let mut ctx = Context::new("n1", &cluster(&["n1", "n2"]));
    let ids: Vec<usize> = (0..100).map(|_| ctx.next_msg_id()).collect();
    assert_eq!(ids, (0..100).collect::<Vec<usize>>());
    assert_eq!(ctx.msg_id(), 100);
}

#[test]
fn reply_answers_the_request() {
    let mut client = Context::new("c", &cluster(&["n1"]));
    let mut server = Context::new("n1", &cluster(&["n1"]));
    server.next_msg_id();
    server.next_msg_id();
    let request_id = client.next_msg_id();
    let request = msg("c", "n1", Some(request_id), None, 5u8);
    let reply = server.construct_reply(&request, 6u8);
    assert_eq!(reply.src, "n1");
    assert_eq!(reply.dst, "c");
    assert_eq!(reply.body.in_reply_to, Some(request_id));
    assert_eq!(reply.body.id, Some(2));
    assert_eq!(reply.body.payload, 6);
    assert_eq!(server.msg_id(), 3);
}

#[test]
fn context_keeps_identity() {
    let ctx = Context::new("n2", &cluster(&["n1", "n2", "n3"]));
    assert_eq!(ctx.node_id(), "n2");
    assert_eq!(ctx.node_ids(), &cluster(&["n1", "n2", "n3"]));
    assert_eq!(ctx.neighbors(), cluster(&["n1", "n3"]));
}

#[test]
fn builder_requires_parts_in_order() {
    let empty: MessageBuilder<u8> = Message::builder();
    assert!(matches!(empty.build(), Err(BuildError::MissingSrc)));
    let no_dst = Message::<u8>::builder().src("a".to_string());
    assert!(matches!(no_dst.build(), Err(BuildError::MissingDst)));
    let no_payload = Message::<u8>::builder().src("a".to_string()).dst("b".to_string());
    assert!(matches!(no_payload.build(), Err(BuildError::MissingPayload)));
}

#[test]
fn builder_builds_message() {
    let mut ctx = Context::new("a", &cluster(&["a", "b"]));
    ctx.next_msg_id();
    let m = MessageBuilder::new()
        .src("a".to_string())
        .dst("b".to_string())
        .id(&mut ctx)
        .in_reply_to(9)
        .payload(3u32)
        .build()
        .unwrap();
    assert_eq!(m.src(), "a");
    assert_eq!(m.dst(), "b");
    assert_eq!(m.body().id, Some(1));
    assert_eq!(m.body().in_reply_to, Some(9));
    assert_eq!(m.body().payload, 3);
    assert_eq!(ctx.msg_id(), 2);
}

#[test]
fn event_reply_detection() {
    let reply: Event<u8, ()> = Event::Message(msg("a", "b", Some(1), Some(0), 1u8));
    let request: Event<u8, ()> = Event::Message(msg("a", "b", Some(1), None, 1u8));
    assert!(reply.is_reply());
    assert!(!request.is_reply());
    assert!(!Event::<u8, ()>::Eof.is_reply());
    assert!(!Event::<u8, ()>::Injected(()).is_reply());
}

#[test]
fn message_set_matches_replies() {
    let set = MessageSet::new(vec![msg("n1", "lin-kv", Some(4), None, 0u8), msg("n1", "lin-kv", Some(7), None, 0u8)]);
    assert_eq!(set.ids, vec![4, 7]);
    assert!(set.is_matching_reply(&msg("lin-kv", "n1", Some(1), Some(7), 0u8)));
    assert!(!set.is_matching_reply(&msg("lin-kv", "n1", Some(1), Some(5), 0u8)));
    assert!(!set.is_matching_reply(&msg("lin-kv", "n1", Some(1), None, 0u8)));
}

#[test]
fn routes_events() {
    assert_eq!(route(None, &[]), Ok(Route::Last));
    assert_eq!(route(Some(Some(true)), &[]), Ok(Route::Reply));
    assert_eq!(route(Some(Some(false)), &[true]), Ok(Route::Step));
    assert_eq!(route(Some(None), &[false, true, true]), Ok(Route::Handler(1)));
    assert_eq!(route(Some(None), &[false, false]), Err(Error::NoHandler));
}

#[test]
fn registry_replaces_by_token() {
    let mut rt: Runtime<&str> = Runtime::new();
    rt.with_handler(1, "a");
    rt.with_handler(2, "b");
    rt.with_handler(1, "c");
    assert_eq!(rt.handlers.len(), 2);
    assert_eq!(rt.get_handler(1), Some(&"c"));
    assert_eq!(rt.get_handler(2), Some(&"b"));
    assert_eq!(rt.get_handler(3), None);
}

#[test]
fn lin_kv_read_round_trip() {
    let mut ctx = Context::new("n1", &cluster(&["n1"]));
    let mut kv: LinKv<u8, &str> = LinKv::new();
    let orig = msg("c", "n1", Some(3), None, 42u8);
    let request = kv.read(Read { key: "k".to_string() }, orig, "waiting", &mut ctx);
    assert_eq!(request.dst, "lin-kv");
    assert_eq!(request.src, "n1");
    assert_eq!(request.body.id, Some(0));
    assert_eq!(kv.callbacks.len(), 1);
    let reply = msg("lin-kv", "n1", Some(10), Some(0), LinKvPayload::ReadOk { value: serde_json::Value::from(5) });
    let done = kv.step(reply).unwrap().unwrap();
    assert_eq!(done.state, "waiting");
    assert_eq!(done.orig_msg.body.payload, 42);
    assert!(matches!(done.outcome, Outcome::Read(v) if v == serde_json::Value::from(5)));
    assert!(kv.callbacks.is_empty());
}

#[test]
fn lin_kv_errors() {
    let mut ctx = Context::new("n1", &cluster(&["n1"]));
    let mut kv: LinKv<u8, u8> = LinKv::new();
    let w = Write { key: "k".to_string(), value: serde_json::Value::from(1) };
    kv.write(w, msg("c", "n1", Some(1), None, 0u8), 1, &mut ctx);
    let c = Cas {
        key: "k".to_string(),
        from: serde_json::Value::from(1),
        to: serde_json::Value::from(2),
        create_if_not_exists: Some(true),
    };
    kv.cas(c, msg("c", "n1", Some(2), None, 0u8), 2, &mut ctx);
    // Not a reply.
    let not_reply = msg("lin-kv", "n1", Some(5), None, LinKvPayload::WriteOk);
    assert!(matches!(kv.step(not_reply), Err(Error::NotReply)));
    // A reply to nothing pending.
    let stray = msg("lin-kv", "n1", Some(5), Some(9), LinKvPayload::WriteOk);
    assert!(matches!(kv.step(stray), Err(Error::NoCallback { in_reply_to: Some(9) })));
    // The wrong kind of reply keeps the request waiting.
    let wrong = msg("lin-kv", "n1", Some(6), Some(0), LinKvPayload::CasOk);
    assert!(matches!(kv.step(wrong), Err(Error::WrongEvent)));
    assert_eq!(kv.callbacks.len(), 2);
    // A request from the service is ignored.
    let request = msg("lin-kv", "n1", Some(7), Some(0), LinKvPayload::Read(Read { key: "k".to_string() }));
    assert!(matches!(kv.step(request), Ok(None)));
    // Errors complete the request as failed.
    let failed = msg("lin-kv", "n1", Some(8), Some(1), LinKvPayload::Error { code: 22, text: "mismatch".to_string() });
    let done = kv.step(failed).unwrap().unwrap();
    assert_eq!(done.state, 2);
    assert!(matches!(done.outcome, Outcome::Failed { code: 22, ref text } if text == "mismatch"));
    let ok = msg("lin-kv", "n1", Some(9), Some(0), LinKvPayload::WriteOk);
    let done = kv.step(ok).unwrap().unwrap();
    assert_eq!(done.state, 1);
    assert!(matches!(done.outcome, Outcome::Written));
    assert!(kv.callbacks.is_empty());
}

#[test]
fn lin_kv_reply_must_reach_same_node() {
    let mut ctx = Context::new("n1", &cluster(&["n1"]));
    let mut kv: LinKv<u8, u8> = LinKv::new();
    kv.read(Read { key: "k".to_string() }, msg("c", "n1", Some(1), None, 0u8), 0, &mut ctx);
    let elsewhere = msg("lin-kv", "n2", Some(3), Some(0), LinKvPayload::ReadOk { value: serde_json::Value::Null });
    assert!(matches!(kv.step(elsewhere), Err(Error::NoCallback { .. })));
}

#[test]
fn handshake_refuses_repeated_node_ids() {
    let init = msg(
        "c",
        "n1",
        Some(0),
        None,
        InitPayload::Init(Init { node_id: "n1".to_string(), node_ids: cluster(&["n1", "n2", "n1"]) }),
    );
    assert!(matches!(handshake(&init), Err(Error::DuplicateNode)));
}

#[test]
fn lin_kv_more_work_keeps_the_request() {
    let mut ctx = Context::new("n1", &cluster(&["n1"]));
    let mut kv: LinKv<u8, u8> = LinKv::new();
    let c = Cas {
        key: "k".to_string(),
        from: serde_json::Value::from(1),
        to: serde_json::Value::from(2),
        create_if_not_exists: None,
    };
    kv.cas(c, msg("c", "n1", Some(1), None, 0u8), 7, &mut ctx);
    assert_eq!(kv.callbacks[0].sent_msgs.ids, vec![0]);
    let failed = msg("lin-kv", "n1", Some(4), Some(0), LinKvPayload::Error { code: 22, text: "busy".to_string() });
    let (idx, outcome) = kv.match_reply(failed).unwrap();
    assert_eq!(idx, 0);
    assert!(matches!(outcome, Outcome::Failed { code: 22, .. }));
    // The continuation retries: the request keeps waiting.
    assert!(kv.settle(idx, CallbackStatus::MoreWork).is_none());
    assert_eq!(kv.callbacks.len(), 1);
    let ok = msg("lin-kv", "n1", Some(5), Some(0), LinKvPayload::CasOk);
    let (idx, outcome) = kv.match_reply(ok).unwrap();
    assert!(matches!(outcome, Outcome::Swapped));
    let (orig, state) = kv.settle(idx, CallbackStatus::Finished).unwrap();
    assert_eq!(orig.body.id, Some(1));
    assert_eq!(state, 7);
    assert!(kv.callbacks.is_empty());
}
