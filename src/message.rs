use vstd::prelude::*;

pub mod bloom_serde;
pub mod broadcast;
pub mod echo;
pub mod init;
pub mod summary;
pub mod unique_id;

verus! {

/// An envelope: who sent it, to whom, and what it says.
#[derive(Debug, Clone)]
pub struct Message<P> {
    pub src: String,
    pub dest: String,
    pub body: Body<P>,
}

/// A message's sequence number and its payload.
#[derive(Debug, Clone)]
pub struct Body<P> {
    pub msg_id: u64,
    pub payload: P,
}

/// A request that a state answers with at most one payload.
pub trait Reply<R, S>: Sized {
    /// How answering the request changes the state, and what it answers.
    spec fn reply_spec(self, before: S, after: S, r: Option<R>) -> bool;

    /// When the request can be answered: the state is sound and the request
    /// is one that the protocol lets arrive. Any other request is a fatal
    /// breach of the protocol, for the caller to stop on.
    spec fn reply_ready(self, state: S) -> bool;

    /// Answers the request, updating `state`.
    fn reply(self, state: &mut S) -> (r: Option<R>)
        requires
            self.reply_ready(*old(state)),
        ensures
            Self::reply_spec(self, *old(state), *final(state), r),
    ;
}

impl<P> Message<P> {
    /// Answers the request and addresses the answer back to its sender, with
    /// `msg_id` as its sequence number.
    pub fn response<R, S>(self, state: &mut S, msg_id: u64) -> (r: Option<Message<R>>) where
        Message<P>: Reply<R, S>,
        requires
            self.reply_ready(*old(state)),
        ensures
            match r {
                Some(m) => {
                    &&& m.src == self.dest
                    &&& m.dest == self.src
                    &&& m.body.msg_id == msg_id
                    &&& self.reply_spec(*old(state), *final(state), Some(m.body.payload))
                },
                None => self.reply_spec(*old(state), *final(state), None),
            },
    {
        let src = self.dest.clone();
        let dest = self.src.clone();
        match self.reply(state) {
            Some(payload) => Some(Message { src, dest, body: Body { msg_id, payload } }),
            None => None,
        }
    }
}

} // verus!
