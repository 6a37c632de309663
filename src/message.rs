use vstd::prelude::*;

use crate::error::BuildError;

verus! {

/// An arbitrary JSON value, carried through the library untouched.
#[verifier::external_type_specification]
#[verifier::external_body]
pub struct ExJsonValue(serde_json::Value);

/// Relies on the derived `Clone` of `serde_json::Value`: a copy of the same value.
pub assume_specification[ <serde_json::Value as Clone>::clone ](v: &serde_json::Value) -> (r: serde_json::Value)
    ensures
        r == *v,
;

/// The envelope of every message: who sent it, to whom, and its body.
#[derive(Debug, Clone)]
pub struct Message<Payload> {
    /// The id of the node that sent the message.
    pub src: String,
    /// The id of the node that the message is meant for (`dest` on the wire).
    pub dst: String,
    /// The body of the message.
    pub body: Body<Payload>,
}

/// The body of a message: its ids and its workload payload.
#[derive(Debug, Clone)]
pub struct Body<Payload> {
    /// The id of the message (`msg_id` on the wire).
    pub id: Option<usize>,
    /// The id of the message that this one answers.
    pub in_reply_to: Option<usize>,
    /// The payload, whose `type` tag tells the variants apart.
    pub payload: Payload,
}

/// The payload of the first message a node receives.
#[derive(Debug, Clone)]
pub struct Init {
    /// The id of this node.
    pub node_id: String,
    /// The ids of every node of the cluster, this one included.
    pub node_ids: Vec<String>,
}

/// The payloads of the initialisation handshake.
#[derive(Debug, Clone)]
pub enum InitPayload {
    Init(Init),
    InitOk,
}

/// An event as the scheduler hands it to a workload.
#[derive(Debug, Clone)]
pub enum Event<Payload, InjectedPayload> {
    /// A message whose payload belongs to the workload.
    Message(Message<Payload>),
    /// A signal that a timer of the workload injected.
    Injected(InjectedPayload),
    /// A message whose payload the workload does not know (for extension handlers).
    Arbitrary(Message<serde_json::Value>),
    /// The input has ended.
    Eof,
}

/// An event before its payload is read as a workload's payload.
#[derive(Debug, Clone)]
pub enum ToEvent<InjectedPayload> {
    Message(Message<serde_json::Value>),
    Injected(InjectedPayload),
    Eof,
}

/// Builds a message part by part; `src`, `dst` and `payload` are required.
#[derive(Debug)]
pub struct MessageBuilder<Payload> {
    pub src: Option<String>,
    pub dst: Option<String>,
    pub id: Option<usize>,
    pub in_reply_to: Option<usize>,
    pub payload: Option<Payload>,
}

impl<Payload> MessageBuilder<Payload> {
    pub fn new() -> (r: Self)
        ensures
            r.src.is_none(),
            r.dst.is_none(),
            r.id.is_none(),
            r.in_reply_to.is_none(),
            r.payload.is_none(),
    {
        MessageBuilder { src: None, dst: None, id: None, in_reply_to: None, payload: None }
    }

    pub fn src(self, src: String) -> (r: Self)
        ensures
            r == (MessageBuilder { src: Some(src), ..self }),
    {
        MessageBuilder { src: Some(src), ..self }
    }

    pub fn dst(self, dst: String) -> (r: Self)
        ensures
            r == (MessageBuilder { dst: Some(dst), ..self }),
    {
        MessageBuilder { dst: Some(dst), ..self }
    }

    /// Gives the message a fresh id taken from `ctx`.
    pub fn id(self, ctx: &mut crate::context::Context) -> (r: Self)
        requires
            old(ctx).can_allocate(),
        ensures
            r == (MessageBuilder { id: Some(old(ctx).next_id()), ..self }),
            final(ctx).allocated_one(*old(ctx)),
    {
        let id = ctx.next_msg_id();
        MessageBuilder { id: Some(id), ..self }
    }

    pub fn in_reply_to(self, in_reply_to: usize) -> (r: Self)
        ensures
            r == (MessageBuilder { in_reply_to: Some(in_reply_to), ..self }),
    {
        MessageBuilder { in_reply_to: Some(in_reply_to), ..self }
    }

    pub fn payload(self, payload: Payload) -> (r: Self)
        ensures
            r == (MessageBuilder { payload: Some(payload), ..self }),
    {
        MessageBuilder { payload: Some(payload), ..self }
    }

    /// The message, or the first missing part among `src`, `dst`, `payload`.
    pub fn build(self) -> (r: Result<Message<Payload>, BuildError>)
        ensures
            self.src.is_none() ==> r == Err::<Message<Payload>, BuildError>(BuildError::MissingSrc),
            self.src.is_some() && self.dst.is_none() ==> r == Err::<Message<Payload>, BuildError>(
                BuildError::MissingDst,
            ),
            self.src.is_some() && self.dst.is_some() && self.payload.is_none() ==> r == Err::<
                Message<Payload>,
                BuildError,
            >(BuildError::MissingPayload),
            self.src.is_some() && self.dst.is_some() && self.payload.is_some() ==> r == Ok::<
                Message<Payload>,
                BuildError,
            >(
                (Message {
                    src: self.src.unwrap(),
                    dst: self.dst.unwrap(),
                    body: Body {
                        id: self.id,
                        in_reply_to: self.in_reply_to,
                        payload: self.payload.unwrap(),
                    },
                }),
            ),
    {
        let src = match self.src {
            Some(s) => s,
            None => return Err(BuildError::MissingSrc),
        };
        let dst = match self.dst {
            Some(d) => d,
            None => return Err(BuildError::MissingDst),
        };
        let payload = match self.payload {
            Some(p) => p,
            None => return Err(BuildError::MissingPayload),
        };
        Ok(Message { src, dst, body: Body { id: self.id, in_reply_to: self.in_reply_to, payload } })
    }
}

impl<Payload> Message<Payload> {
    pub fn builder() -> (r: MessageBuilder<Payload>)
        ensures
            r.src.is_none(),
            r.dst.is_none(),
            r.id.is_none(),
            r.in_reply_to.is_none(),
            r.payload.is_none(),
    {
        MessageBuilder::new()
    }

    pub fn src(&self) -> (r: &str)
        ensures
            r@ == self.src@,
    {
        self.src.as_str()
    }

    pub fn dst(&self) -> (r: &str)
        ensures
            r@ == self.dst@,
    {
        self.dst.as_str()
    }

    pub fn body(&self) -> (r: &Body<Payload>)
        ensures
            *r == self.body,
    {
        &self.body
    }

    /// Whether this message answers another one.
    pub open spec fn is_reply_spec(&self) -> bool {
        self.body.in_reply_to.is_some()
    }
}

impl<Payload, InjectedPayload> Event<Payload, InjectedPayload> {
    pub open spec fn is_reply_spec(&self) -> bool {
        match self {
            Event::Message(m) => m.is_reply_spec(),
            Event::Arbitrary(m) => m.is_reply_spec(),
            _ => false,
        }
    }

    /// Whether the event is a message that answers another one.
    pub fn is_reply(&self) -> (r: bool)
        ensures
            r == self.is_reply_spec(),
    {
        match self {
            Event::Message(m) => m.body.in_reply_to.is_some(),
            Event::Arbitrary(m) => m.body.in_reply_to.is_some(),
            _ => false,
        }
    }
}

/// The messages that one RPC sent and that wait for their replies.
pub struct MessageSet<Payload> {
    /// The messages that were sent.
    pub messages: Vec<Message<Payload>>,
    /// Their ids, in the same order.
    pub ids: Vec<usize>,
}

impl<Payload> MessageSet<Payload> {
    pub open spec fn wf(&self) -> bool {
        &&& self.ids@.len() == self.messages@.len()
        &&& forall|i: int|
            0 <= i < self.ids@.len() ==> self.messages@[i].body.id == Some(#[trigger] self.ids@[i])
    }

    /// Whether `msg` answers one of the messages of the set.
    pub open spec fn matches_spec(&self, msg: Message<Payload>) -> bool {
        msg.body.in_reply_to.is_some() && self.ids@.contains(msg.body.in_reply_to.unwrap())
    }

    /// A set of sent messages; each must carry an id.
    pub fn new(msgs: Vec<Message<Payload>>) -> (r: Self)
        requires
            forall|i: int| 0 <= i < msgs@.len() ==> (#[trigger] msgs@[i]).body.id.is_some(),
        ensures
            r.wf(),
            r.messages@ == msgs@,
            r.ids@ == msgs@.map_values(|m: Message<Payload>| m.body.id.unwrap()),
    {
        let mut ids: Vec<usize> = Vec::new();
        let mut i: usize = 0;
        while i < msgs.len()
            invariant
                i <= msgs@.len(),
                forall|j: int| 0 <= j < msgs@.len() ==> (#[trigger] msgs@[j]).body.id.is_some(),
                ids@ == msgs@.take(i as int).map_values(|m: Message<Payload>| m.body.id.unwrap()),
            decreases msgs@.len() - i,
        {
            let id = match msgs[i].body.id {
                Some(id) => id,
                None => 0,
            };
            ids.push(id);
            i = i + 1;
            assert(msgs@.take(i as int) == msgs@.take(i - 1).push(msgs@[i - 1]));
        }
        assert(msgs@.take(msgs@.len() as int) == msgs@);
        MessageSet { messages: msgs, ids }
    }

    /// Whether `msg` is a reply to one of the messages of the set.
    pub fn is_matching_reply(&self, msg: &Message<Payload>) -> (r: bool)
        ensures
            r == self.matches_spec(*msg),
    {
        match msg.body.in_reply_to {
            None => false,
            Some(id) => {
                let mut i: usize = 0;
                while i < self.ids.len()
                    invariant
                        i <= self.ids@.len(),
                        msg.body.in_reply_to == Some(id),
                        forall|j: int| 0 <= j < i ==> self.ids@[j] != id,
                    decreases self.ids@.len() - i,
                {
                    if self.ids[i] == id {
                        assert(self.ids@[i as int] == id);
                        return true;
                    }
                    i = i + 1;
                }
                false
            },
        }
    }
}

} // verus!
