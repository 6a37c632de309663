//! The echo workload: every `echo` is answered with the same text.
use vstd::prelude::*;

use crate::context::{is_reply_to, Context};
use crate::message::{Event, Message};

verus! {

#[derive(Debug, Clone)]
pub enum Payload {
    Echo { echo: String },
    EchoOk { echo: String },
}

pub struct EchoNode {
    pub id: usize,
}

impl EchoNode {
    pub fn init(_ctx: &Context) -> (r: EchoNode)
        ensures
            r.id == 1,
    {
        EchoNode { id: 1 }
    }

    /// Answers `echo` with `echo_ok` carrying the same text; nothing else is
    /// answered.
    pub fn step(&mut self, input: Event<Payload, ()>, ctx: &mut Context) -> (r: Vec<Message<Payload>>)
        requires
            old(ctx).can_allocate(),
        ensures
            match input {
                Event::Message(m) => match m.body.payload {
                    Payload::Echo { echo } => r@.len() == 1 && is_reply_to(r@[0], m, old(ctx).next_id())
                        && r@[0].body.payload == (Payload::EchoOk { echo })
                        && final(ctx).allocated_one(*old(ctx)),
                    Payload::EchoOk { .. } => r@.len() == 0 && *final(ctx) == *old(ctx),
                },
                _ => r@.len() == 0 && *final(ctx) == *old(ctx),
            },
    {
        let mut out: Vec<Message<Payload>> = Vec::new();
        if let Event::Message(m) = input {
            if let Payload::Echo { echo } = &m.body.payload {
                let reply = ctx.construct_reply(&m, Payload::EchoOk { echo: echo.clone() });
                out.push(reply);
            }
        }
        out
    }
}

} // verus!
