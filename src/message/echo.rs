use vstd::prelude::*;

use super::Message;
use super::Reply;

verus! {

/// The payloads of the echo workload.
#[derive(Debug, Clone)]
pub enum Payload {
    Echo { echo: String },
    EchoOk { echo: String, in_reply_to: u64 },
}

impl<S> Reply<Payload, S> for Message<Payload> {
    /// An echo is answered with its own text.
    open spec fn reply_spec(self, before: S, after: S, r: Option<Payload>) -> bool {
        &&& after == before
        &&& match self.body.payload {
            Payload::Echo { echo } => r == Some(
                Payload::EchoOk { echo, in_reply_to: self.body.msg_id },
            ),
            Payload::EchoOk { .. } => r is None,
        }
    }

    /// An `EchoOk` is never expected.
    open spec fn reply_ready(self, state: S) -> bool {
        self.body.payload is Echo
    }

    fn reply(self, state: &mut S) -> (r: Option<Payload>) {
        match self.body.payload {
            Payload::Echo { echo } => Some(Payload::EchoOk { echo, in_reply_to: self.body.msg_id }),
            Payload::EchoOk { .. } => None,
        }
    }
}

} // verus!
