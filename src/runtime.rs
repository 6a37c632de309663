//! The decisions of the scheduler: the initialisation handshake, the
//! registry of extension handlers, and where each event goes.
use vstd::prelude::*;

use crate::context::{is_reply_to, Context};
use crate::error::Error;
use crate::message::{Init, InitPayload, Message};

verus! {

/// The registry of extension handlers, each under a token of its own.
pub struct Runtime<H> {
    pub handlers: Vec<(u64, H)>,
}

/// Where the scheduler sends an event.
#[derive(Debug, Clone, Copy, PartialEq, Eq, Structural)]
pub enum Route {
    /// To the workload's `handle_reply`.
    Reply,
    /// To the workload's `step`.
    Step,
    /// To the workload's `step`, after which the loop ends.
    Last,
    /// To the extension handler at this position of the registry.
    Handler(usize),
}

/// The position of the handler under `token`, if there is one.
pub open spec fn handler_index<H>(handlers: Seq<(u64, H)>, token: u64) -> Option<int> {
    if exists|i: int| 0 <= i < handlers.len() && (#[trigger] handlers[i]).0 == token {
        Some(choose|i: int| 0 <= i < handlers.len() && (#[trigger] handlers[i]).0 == token)
    } else {
        None
    }
}

impl<H> Runtime<H> {
    /// No two handlers share a token.
    pub open spec fn wf(&self) -> bool {
        forall|i: int, j: int|
            0 <= i < j < self.handlers@.len() ==> (#[trigger] self.handlers@[i]).0 != (#[trigger] self.handlers@[j]).0
    }

    pub fn new() -> (r: Self)
        ensures
            r.wf(),
            r.handlers@.len() == 0,
    {
        Runtime { handlers: Vec::new() }
    }

    /// Registers `handler` under `token`, in place of any handler that the
    /// token already names.
    pub fn with_handler(&mut self, token: u64, handler: H)
        requires
            old(self).wf(),
        ensures
            final(self).wf(),
            handler_index(old(self).handlers@, token) matches Some(i) ==> final(self).handlers@ == old(self).handlers@.update(i, (token, handler)),
            handler_index(old(self).handlers@, token) is None ==> final(self).handlers@ == old(self).handlers@.push((token, handler)),
    {
        let mut i: usize = 0;
        while i < self.handlers.len()
            invariant
                i <= self.handlers@.len(),
                self.handlers@ == old(self).handlers@,
                self.wf(),
                forall|j: int| 0 <= j < i ==> (#[trigger] self.handlers@[j]).0 != token,
            decreases self.handlers@.len() - i,
        {
            if self.handlers[i].0 == token {
                proof {
                    lemma_handler_index(self.handlers@, token, i as int);
                }
                self.handlers.set(i, (token, handler));
                proof {
                    assert forall|k: int, l: int| 0 <= k < l < self.handlers@.len() implies
                        (#[trigger] self.handlers@[k]).0 != (#[trigger] self.handlers@[l]).0 by {
                        assert(old(self).handlers@[k].0 != old(self).handlers@[l].0);
                    }
                }
                return;
            }
            i = i + 1;
        }
        self.handlers.push((token, handler));
        proof {
            assert forall|k: int, l: int| 0 <= k < l < self.handlers@.len() implies
                (#[trigger] self.handlers@[k]).0 != (#[trigger] self.handlers@[l]).0 by {
                if l < old(self).handlers@.len() {
                    assert(old(self).handlers@[k].0 != old(self).handlers@[l].0);
                } else {
                    assert(old(self).handlers@[k].0 != token);
                }
            }
        }
    }

    /// The handler under `token`.
    pub fn get_handler(&self, token: u64) -> (r: Option<&H>)
        requires
            self.wf(),
        ensures
            handler_index(self.handlers@, token) matches Some(i) ==> r == Some(&self.handlers@[i].1),
            handler_index(self.handlers@, token) is None ==> r is None,
    {
        let mut i: usize = 0;
        while i < self.handlers.len()
            invariant
                self.wf(),
                i <= self.handlers@.len(),
                forall|j: int| 0 <= j < i ==> (#[trigger] self.handlers@[j]).0 != token,
            decreases self.handlers@.len() - i,
        {
            if self.handlers[i].0 == token {
                proof {
                    lemma_handler_index(self.handlers@, token, i as int);
                }
                return Some(&self.handlers[i].1);
            }
            i = i + 1;
        }
        None
    }
}

/// With distinct tokens, the handler found under `token` is the one at `i`.
proof fn lemma_handler_index<H>(handlers: Seq<(u64, H)>, token: u64, i: int)
    requires
        0 <= i < handlers.len(),
        handlers[i].0 == token,
        forall|k: int, l: int| 0 <= k < l < handlers.len() ==> (#[trigger] handlers[k]).0 != (#[trigger] handlers[l]).0,
    ensures
        handler_index(handlers, token) == Some(i),
{
    assert(handlers[i].0 == token);
    let k = choose|k: int| 0 <= k < handlers.len() && (#[trigger] handlers[k]).0 == token;
    if k < i {
        assert(handlers[k].0 != handlers[i].0);
    } else if k > i {
        assert(handlers[i].0 != handlers[k].0);
    }
}

/// Where an event goes. `decoded` is `None` for the end of input, and
/// otherwise says whether the message was read as a workload payload and,
/// if so, whether it is a reply; `accepts[i]` says whether handler `i` takes
/// a message that the workload could not read. An injected signal is a
/// decoded message that is no reply.
pub open spec fn route_spec(decoded: Option<Option<bool>>, accepts: Seq<bool>) -> Result<Route, Error> {
    match decoded {
        None => Ok(Route::Last),
        Some(Some(true)) => Ok(Route::Reply),
        Some(Some(false)) => Ok(Route::Step),
        Some(None) => if exists|i: int| 0 <= i < accepts.len() && accepts[i] {
            Ok(Route::Handler(first_true(accepts) as usize))
        } else {
            Err(Error::NoHandler)
        },
    }
}

/// The first position that holds `true`.
pub open spec fn first_true(s: Seq<bool>) -> int
    decreases s.len(),
{
    if s.len() == 0 {
        0
    } else if s[0] {
        0
    } else {
        1 + first_true(s.drop_first())
    }
}

proof fn lemma_first_true(s: Seq<bool>, i: int)
    requires
        0 <= i < s.len(),
        s[i],
        forall|j: int| 0 <= j < i ==> !s[j],
    ensures
        first_true(s) == i,
    decreases i,
{
    if i > 0 {
        assert(s.drop_first()[i - 1] == s[i]);
        lemma_first_true(s.drop_first(), i - 1);
    }
}

/// Decides where an event goes; see `route_spec`.
pub fn route(decoded: Option<Option<bool>>, accepts: &[bool]) -> (r: Result<Route, Error>)
    ensures
        r == route_spec(decoded, accepts@),
{
    match decoded {
        None => Ok(Route::Last),
        Some(Some(true)) => Ok(Route::Reply),
        Some(Some(false)) => Ok(Route::Step),
        Some(None) => {
            let mut i: usize = 0;
            while i < accepts.len()
                invariant
                    decoded == Some(None::<bool>),
                    i <= accepts@.len(),
                    forall|j: int| 0 <= j < i ==> !accepts@[j],
                decreases accepts@.len() - i,
            {
                if accepts[i] {
                    proof {
                        lemma_first_true(accepts@, i as int);
                        assert(accepts@[i as int]);

                    }
                    return Ok(Route::Handler(i));
                }
                i = i + 1;
            }
            Err(Error::NoHandler)
        },
    }
}

/// The handshake: the first message must be `init`. It gives the context of
/// the node and the `init_ok` reply, which takes the node's first message id.
pub fn handshake(first: &Message<InitPayload>) -> (r: Result<(Context, Message<InitPayload>), Error>)
    ensures
        first.body.payload is InitOk ==> r == Err::<(Context, Message<InitPayload>), Error>(Error::WrongEvent),
        first.body.payload matches InitPayload::Init(init) ==> if crate::context::distinct_ids(init.node_ids@) {
            r is Ok && {
                let (ctx, reply) = r.unwrap();
                &&& ctx.node_id_spec() == init.node_id@
                &&& ctx.node_ids_spec() == init.node_ids@.map_values(|s: String| s@)
                &&& ctx.next_id() == 1
                &&& ctx.distinct_nodes()
                &&& is_reply_to(reply, *first, 0)
                &&& reply.body.payload is InitOk
            }
        } else {
            r == Err::<(Context, Message<InitPayload>), Error>(Error::DuplicateNode)
        },
{
    match &first.body.payload {
        InitPayload::Init(init) => {
            if !crate::context::all_distinct(init.node_ids.as_slice()) {
                return Err(Error::DuplicateNode);
            }
            let mut ctx = Context::new(init.node_id.as_str(), init.node_ids.as_slice());
            let reply = ctx.construct_reply(first, InitPayload::InitOk);
            Ok((ctx, reply))
        },
        InitPayload::InitOk => Err(Error::WrongEvent),
    }
}

} // verus!
