use vstd::prelude::*;

use super::Message;
use super::Reply;

verus! {

/// The handshake: the receiver's own identity and every node of the cluster.
#[derive(Debug, Clone)]
pub struct Init {
    pub node_id: String,
    pub node_ids: Vec<String>,
}

/// The answer to the handshake.
#[derive(Debug, Clone)]
pub struct InitOk {
    pub in_reply_to: u64,
}

impl<S> Reply<InitOk, S> for Message<Init> {
    /// The handshake is acknowledged and changes nothing.
    open spec fn reply_spec(
        self,
        before: S,
        after: S,
        r: Option<InitOk>,
    ) -> bool {
        &&& after == before
        &&& r == Some(InitOk { in_reply_to: self.body.msg_id })
    }

    open spec fn reply_ready(self, state: S) -> bool {
        true
    }

    fn reply(self, state: &mut S) -> (r: Option<InitOk>) {
        Some(InitOk { in_reply_to: self.body.msg_id })
    }
}

} // verus!
