use vstd::prelude::*;
use vstd::string::StringExecFns;

use super::Message;
use super::Reply;
use crate::Node;

verus! {

/// The payloads of the unique-id workload.
#[derive(Debug, Clone)]
pub enum Payload {
    Generate,
    GenerateOk { id: String, in_reply_to: u64 },
}

/// The decimal digit of a value below ten.
pub open spec fn digit(d: nat) -> char {
    (48 + d) as char
}

/// The decimal text of a number: its digits, most significant first, with no
/// leading zeros.
pub open spec fn decimal(n: nat) -> Seq<char>
    decreases n,
{
    if n < 10 {
        seq![digit(n)]
    } else {
        decimal(n / 10).push(digit(n % 10))
    }
}

/// The text of one decimal digit.
fn digit_text(d: u64) -> (r: &'static str)
    requires
        d < 10,
    ensures
        r@ == seq![digit(d as nat)],
{
    proof {
        reveal_strlit("0");
        reveal_strlit("1");
        reveal_strlit("2");
        reveal_strlit("3");
        reveal_strlit("4");
        reveal_strlit("5");
        reveal_strlit("6");
        reveal_strlit("7");
        reveal_strlit("8");
        reveal_strlit("9");
    }
    match d {
        0 => "0",
        1 => "1",
        2 => "2",
        3 => "3",
        4 => "4",
        5 => "5",
        6 => "6",
        7 => "7",
        8 => "8",
        _ => "9",
    }
}

/// The decimal text of `n`.
pub fn decimal_text(n: u64) -> (r: String)
    ensures
        r@ == decimal(n as nat),
    decreases n,
{
    if n < 10 {
        String::from_str(digit_text(n))
    } else {
        let mut text = decimal_text(n / 10);
        text.append(digit_text(n % 10));
        text
    }
}

impl Reply<Payload, Node> for Message<Payload> {
    /// A request for an id is answered with the node's identity followed by
    /// its next sequence number, which no other answer of any node repeats.
    open spec fn reply_spec(
        self,
        before: Node,
        after: Node,
        r: Option<Payload>,
    ) -> bool {
        &&& after@ == before@
        &&& match self.body.payload {
            Payload::Generate => match r {
                Some(Payload::GenerateOk { id, in_reply_to }) => {
                    &&& id@ == before@.node_id + decimal(before@.msg_id as nat)
                    &&& in_reply_to == self.body.msg_id
                },
                _ => false,
            },
            Payload::GenerateOk { .. } => r is None,
        }
    }

    /// A `GenerateOk` is never expected.
    open spec fn reply_ready(self, state: Node) -> bool {
        self.body.payload is Generate
    }

    fn reply(self, state: &mut Node) -> (r: Option<Payload>) {
        match self.body.payload {
            Payload::Generate => Some(
                Payload::GenerateOk { id: state.unique_id(), in_reply_to: self.body.msg_id },
            ),
            Payload::GenerateOk { .. } => None,
        }
    }
}

} // verus!
