//! The unique-ids workload: ids made of the node's id and a message id that
//! the node never hands out twice.
use vstd::prelude::*;

use crate::context::{is_reply_to, Context};
use crate::message::{Event, Message};

verus! {

#[derive(Debug, Clone)]
pub enum Payload {
    Generate,
    GenerateOk { guid: String },
}

pub struct UniqueNode;

/// The decimal digits of `n`, most significant first.
pub open spec fn decimal(n: nat) -> Seq<char>
    decreases n,
{
    if n < 10 {
        seq![digit_char(n)]
    } else {
        decimal(n / 10) + seq![digit_char(n % 10)]
    }
}

pub open spec fn digit_char(d: nat) -> char {
    if d < 10 {
        ((d + 48) as u8) as char
    } else {
        '?'
    }
}

/// The id generated for `node_id` from the message id `id`.
pub open spec fn guid(node_id: Seq<char>, id: nat) -> Seq<char> {
    node_id + seq!['-'] + decimal(id)
}

fn digit(d: usize) -> (r: &'static str)
    requires
        d < 10,
    ensures
        r@ == seq![digit_char(d as nat)],
{
    proof {
        reveal_strlit("0");
        reveal_strlit("1");
        reveal_strlit("2");
        reveal_strlit("3");
        reveal_strlit("4");
        reveal_strlit("5");
        reveal_strlit("6");
        reveal_strlit("7");
        reveal_strlit("8");
        reveal_strlit("9");
    }
    match d {
        0 => "0",
        1 => "1",
        2 => "2",
        3 => "3",
        4 => "4",
        5 => "5",
        6 => "6",
        7 => "7",
        8 => "8",
        _ => "9",
    }
}

/// `n` written in decimal.
pub fn to_decimal(n: usize) -> (r: String)
    ensures
        r@ == decimal(n as nat),
    decreases n,
{
    if n < 10 {
        String::from_str(digit(n))
    } else {
        let mut s = to_decimal(n / 10);
        s.append(digit(n % 10));
        s
    }
}

impl UniqueNode {
    pub fn init(_ctx: &Context) -> UniqueNode {
        UniqueNode
    }

    /// Answers `generate` with `<node id>-<n>`, where `n` is the message id that
    /// the reply itself takes: no two replies of the node share it.
    pub fn step(&mut self, input: Event<Payload, ()>, ctx: &mut Context) -> (r: Vec<Message<Payload>>)
        requires
            old(ctx).can_allocate(),
        ensures
            match input {
                Event::Message(m) => match m.body.payload {
                    Payload::Generate => r@.len() == 1 && is_reply_to(r@[0], m, old(ctx).next_id())
                        && (r@[0].body.payload matches Payload::GenerateOk { guid: g }
                        && g@ == guid(old(ctx).node_id_spec(), old(ctx).next_id() as nat))
                        && final(ctx).allocated_one(*old(ctx)),
                    Payload::GenerateOk { .. } => r@.len() == 0 && *final(ctx) == *old(ctx),
                },
                _ => r@.len() == 0 && *final(ctx) == *old(ctx),
            },
    {
        let mut out: Vec<Message<Payload>> = Vec::new();
        if let Event::Message(m) = input {
            if let Payload::Generate = m.body.payload {
                let mut g = String::from_str(ctx.node_id());
                proof {
                    reveal_strlit("-");
                }
                g.append("-");
                g.append(to_decimal(ctx.msg_id()).as_str());
                let reply = ctx.construct_reply(&m, Payload::GenerateOk { guid: g });
                out.push(reply);
            }
        }
        out
    }
}

proof fn lemma_digit_char(d: nat, e: nat)
    requires
        d < 10,
        e < 10,
    ensures
        digit_char(d) != '-',
        digit_char(d) == digit_char(e) ==> d == e,
{
}

proof fn lemma_decimal_shape(n: nat)
    ensures
        decimal(n).len() >= 1,
        n >= 10 ==> decimal(n).len() >= 2,
        forall|k: int| 0 <= k < decimal(n).len() ==> #[trigger] decimal(n)[k] != '-',
    decreases n,
{
    lemma_digit_char(n % 10, 0);
    if n >= 10 {
        lemma_decimal_shape(n / 10);
        let p = decimal(n / 10);
        assert forall|k: int| 0 <= k < decimal(n).len() implies #[trigger] decimal(n)[k] != '-' by {
            if k < p.len() {
                assert(decimal(n)[k] == p[k]);
            }
        }
    }
}

proof fn lemma_decimal_injective(a: nat, b: nat)
    requires
        decimal(a) == decimal(b),
    ensures
        a == b,
    decreases a,
{
    lemma_decimal_shape(a);
    lemma_decimal_shape(b);
    let s = decimal(a);
    lemma_digit_char(a % 10, b % 10);
    if a < 10 && b < 10 {
        assert(s[0] == digit_char(a) && s[0] == digit_char(b));
        lemma_digit_char(a, b);
    } else if a >= 10 && b >= 10 {
        assert(s.last() == digit_char(a % 10));
        assert(decimal(b).last() == digit_char(b % 10));
        assert(s.drop_last() == decimal(a / 10));
        assert(decimal(b).drop_last() == decimal(b / 10));
        lemma_decimal_injective(a / 10, b / 10);
    }
}

/// Ids never collide: two `generate` replies carry the same id only if they
/// come from the same node under the same message id. With each node's
/// message ids never reused, every id generated in the cluster is unique.
pub proof fn lemma_guids_distinct(n1: Seq<char>, i: nat, n2: Seq<char>, j: nat)
    requires
        guid(n1, i) == guid(n2, j),
    ensures
        n1 == n2,
        i == j,
{
    let g = guid(n1, i);
    lemma_decimal_shape(i);
    lemma_decimal_shape(j);
    if n1.len() < n2.len() {
        let k = n2.len() as int;
        assert(guid(n2, j)[k] == '-');
        assert(guid(n2, j).len() == n2.len() + 1 + decimal(j).len());
        assert(g.len() == n1.len() + 1 + decimal(i).len());
        assert(g == (n1 + seq!['-']) + decimal(i));
        assert((n1 + seq!['-']).len() == n1.len() + 1);
        assert(g[k] == decimal(i)[k - n1.len() - 1]);
    } else if n2.len() < n1.len() {
        let k = n1.len() as int;
        assert(g[k] == '-');
        assert(g.len() == n1.len() + 1 + decimal(i).len());
        assert(guid(n2, j).len() == n2.len() + 1 + decimal(j).len());
        assert(guid(n2, j) == (n2 + seq!['-']) + decimal(j));
        assert((n2 + seq!['-']).len() == n2.len() + 1);
        assert(guid(n2, j)[k] == decimal(j)[k - n2.len() - 1]);
    }
    assert(n1 =~= g.take(n1.len() as int));
    assert(n2 =~= g.take(n2.len() as int));
    assert(decimal(i) =~= g.skip(n1.len() as int + 1));
    assert(decimal(j) =~= g.skip(n2.len() as int + 1));
    lemma_decimal_injective(i, j);
}

} // verus!
