use bloomfilter::Bloom;
use std::collections::BTreeSet;
use vstd::prelude::*;
use vstd::string::StringExecFns;

pub mod message;
pub mod runs;

pub use message::Message;

use message::broadcast::bloom_with_all;
use message::broadcast::broadcast_ready;
use message::broadcast::broadcast_reply;
use message::broadcast::has_own_entry;
use message::broadcast::missing_from;
use message::broadcast::own_neighbors;
use message::broadcast::texts;
use message::broadcast::Payload;
use message::init::Init;
use message::init::InitOk;
use message::summary::bloom_admits;
use message::summary::bloom_bytes;
use message::summary::bloom_clone;
use message::summary::bitmap_clear;
use message::summary::bits_kept;
use message::summary::bloom_has_bitmap;
use message::summary::bloom_with;
use message::summary::lemma_bits_kept_refl;
use message::summary::lemma_bits_kept_trans;
use message::summary::bloom_set;
use message::summary::has_bitmap;
use message::unique_id::decimal;
use message::unique_id::decimal_text;
use message::Body;
use message::Reply;

verus! {

/// What the node's loop processes: a message that came in, or a gossip tick.
#[derive(Debug, Clone)]
pub enum Event<P> {
    Message(Message<P>),
    Sync,
}

/// One participant of the cluster, replicating a growing set of integers.
pub struct Node {
    msg_id: u64,
    node_id: String,
    node_ids: Vec<String>,
    messages: BTreeSet<u64>,
    neighborhood: Vec<String>,
    index: Bloom<u64>,
}

/// A node's state in mathematical terms.
pub ghost struct NodeModel {
    /// The sequence number of the next message the node emits.
    pub msg_id: u64,
    pub node_id: Seq<char>,
    /// Every node of the cluster, as the handshake named them.
    pub peer_ids: Seq<Seq<char>>,
    /// Every integer the node has learned.
    pub messages: Set<u64>,
    /// The neighbours it gossips to, in order.
    pub neighborhood: Seq<Seq<char>>,
    /// The bytes of its summary filter.
    pub summary: Seq<u8>,
}

impl View for Node {
    type V = NodeModel;

    closed spec fn view(&self) -> NodeModel {
        NodeModel {
            msg_id: self.msg_id,
            node_id: self.node_id@,
            peer_ids: texts(self.node_ids@),
            messages: self.messages@,
            neighborhood: texts(self.neighborhood@),
            summary: bloom_bytes(self.index),
        }
    }
}

impl NodeModel {
    /// The summary has a bitmap and admits every integer the node knows.
    pub open spec fn wf(self) -> bool {
        &&& has_bitmap(self.summary)
        &&& forall|m: u64| self.messages.contains(m) ==> #[trigger] bloom_admits(self.summary, m)
    }

    /// `next` admits at least what `self` admits.
    pub open spec fn summary_grows_to(self, next: NodeModel) -> bool {
        forall|m: u64| bloom_admits(self.summary, m) ==> #[trigger] bloom_admits(next.summary, m)
    }
}

/// What handling `msg` does: the reply rules decide the state and the answer;
/// an answer goes back to the sender under the next sequence number.
pub open spec fn message_handled(
    msg: Message<Payload>,
    before: NodeModel,
    after: NodeModel,
    out: Vec<Message<Payload>>,
) -> bool {
    let replied = NodeModel { msg_id: before.msg_id, ..after };
    if out@.len() == 0 {
        &&& after.msg_id == before.msg_id
        &&& broadcast_reply(msg, before, replied, None)
    } else {
        &&& out@.len() == 1
        &&& after.msg_id == before.msg_id + 1
        &&& out@[0].src == msg.dest
        &&& out@[0].dest == msg.src
        &&& out@[0].body.msg_id == before.msg_id
        &&& broadcast_reply(msg, before, replied, Some(out@[0].body.payload))
    }
}

/// What a gossip tick does: one gossip carrying the summary to each
/// neighbour in order, numbered consecutively; nothing else changes.
pub open spec fn gossip_round(before: NodeModel, after: NodeModel, out: Seq<Message<Payload>>) -> bool {
    &&& after == NodeModel { msg_id: after.msg_id, ..before }
    &&& after.msg_id == before.msg_id + before.neighborhood.len()
    &&& out.len() == before.neighborhood.len()
    &&& gossip_prefix(before, out)
}

/// The messages of `out` are the first gossips of a tick from `before`.
pub open spec fn gossip_prefix(before: NodeModel, out: Seq<Message<Payload>>) -> bool {
    &&& out.len() <= before.neighborhood.len()
    &&& forall|i: int|
        0 <= i < out.len() ==> {
            &&& (#[trigger] out[i]).src@ == before.node_id
            &&& out[i].dest@ == before.neighborhood[i]
            &&& out[i].body.msg_id == before.msg_id + i
            &&& match out[i].body.payload {
                Payload::Gossip { bloom } => bloom_bytes(bloom) == before.summary,
                _ => false,
            }
        }
}

/// How a node goes from `before` to `after` in answering `msg` with `r`,
/// passing through `mid` where the reply rules leave it.
pub open spec fn answered<P, R>(
    msg: Message<P>,
    before: Node,
    mid: Node,
    after: Node,
    r: Option<Message<R>>,
) -> bool where Message<P>: Reply<R, Node> {
    match r {
        Some(m) => {
            &&& m.src == msg.dest
            &&& m.dest == msg.src
            &&& m.body.msg_id == before@.msg_id
            &&& msg.reply_spec(before, mid, Some(m.body.payload))
            &&& after@ == NodeModel { msg_id: (before@.msg_id + 1) as u64, ..mid@ }
        },
        None => msg.reply_spec(before, mid, None) && after@ == mid@,
    }
}

/// When a node in state `s` can handle `event`: a message must be one the
/// protocol lets arrive and leave a sequence number for the answer; a tick
/// needs one number for each neighbour.
pub open spec fn handle_ready(s: NodeModel, event: Event<Payload>) -> bool {
    match event {
        Event::Message(msg) => s.msg_id < u64::MAX && broadcast_ready(msg, s),
        Event::Sync => s.msg_id + s.neighborhood.len() <= u64::MAX,
    }
}

/// What handling an event does.
pub open spec fn event_handled(
    event: Event<Payload>,
    before: NodeModel,
    after: NodeModel,
    out: Vec<Message<Payload>>,
) -> bool {
    match event {
        Event::Message(msg) => message_handled(msg, before, after, out),
        Event::Sync => gossip_round(before, after, out@),
    }
}

impl Node {
    /// A node named `node_id` in a cluster of `node_ids` that knows nothing
    /// yet, has no neighbours and will number its first message 0. Its
    /// summary is a new, clear filter with a bitmap.
    pub fn new(node_id: String, node_ids: Vec<String>, index: Bloom<u64>) -> (r: Node)
        requires
            has_bitmap(bloom_bytes(index)),
            bitmap_clear(bloom_bytes(index)),
        ensures
            r@ == (NodeModel {
                msg_id: 0,
                node_id: node_id@,
                peer_ids: texts(node_ids@),
                messages: Set::empty(),
                neighborhood: Seq::empty(),
                summary: bloom_bytes(index),
            }),
            r@.wf(),
    {
        let node = Node {
            msg_id: 0,
            node_id,
            node_ids,
            messages: BTreeSet::new(),
            neighborhood: Vec::new(),
            index,
        };
        proof {
            assert(texts(node.neighborhood@) =~= Seq::empty());
        }
        node
    }

    /// Starts a node from the handshake: it takes the identity and the
    /// cluster it names and a new, clear summary filter, and acknowledges under
    /// sequence number 0.
    pub fn init(msg: Message<Init>, index: Bloom<u64>) -> (r: (Node, Message<InitOk>))
        requires
            has_bitmap(bloom_bytes(index)),
            bitmap_clear(bloom_bytes(index)),
        ensures
            r.0@ == (NodeModel {
                msg_id: 1,
                node_id: msg.body.payload.node_id@,
                peer_ids: texts(msg.body.payload.node_ids@),
                messages: Set::empty(),
                neighborhood: Seq::empty(),
                summary: bloom_bytes(index),
            }),
            r.0@.wf(),
            r.1.src == msg.dest,
            r.1.dest == msg.src,
            r.1.body.msg_id == 0,
            r.1.body.payload.in_reply_to == msg.body.msg_id,
    {
        let mut node = Node::new(
            msg.body.payload.node_id.clone(),
            msg.body.payload.node_ids.clone(),
            index,
        );
        proof {
            assert(texts(node.node_ids@) =~= texts(msg.body.payload.node_ids@));
        }
        let reply = Message {
            src: msg.dest.clone(),
            dest: msg.src.clone(),
            body: Body { msg_id: 0, payload: InitOk { in_reply_to: msg.body.msg_id } },
        };
        node.msg_id = 1;
        (node, reply)
    }

    /// Handles one event and gives the messages to send, in order. A message
    /// is answered through the reply rules; a tick sends the summary to every
    /// neighbour. Every message sent takes the next sequence number.
    pub fn handle(&mut self, event: Event<Payload>) -> (r: Vec<Message<Payload>>)
        requires
            old(self)@.wf(),
            handle_ready(old(self)@, event),
        ensures
            event_handled(event, old(self)@, final(self)@, r),
            final(self)@.wf(),
    {
        match event {
            Event::Message(msg) => {
                let msg_id = self.msg_id;
                match msg.response(self, msg_id) {
                    Some(reply) => {
                        self.msg_id = msg_id + 1;
                        let mut out: Vec<Message<Payload>> = Vec::new();
                        out.push(reply);
                        out
                    },
                    None => Vec::new(),
                }
            },
            Event::Sync => {
                let ghost start = self@;
                let mut out: Vec<Message<Payload>> = Vec::new();
                let n = self.neighborhood.len();
                for i in 0..n
                    invariant
                        self@ == (NodeModel { msg_id: (start.msg_id + i) as u64, ..start }),
                        start.msg_id + start.neighborhood.len() <= u64::MAX,
                        n == self.neighborhood@.len(),
                        n == start.neighborhood.len(),
                        out@.len() == i,
                        gossip_prefix(start, out@),
                {
                    let gossip = Message {
                        src: self.node_id.clone(),
                        dest: self.neighborhood[i].clone(),
                        body: Body {
                            msg_id: self.msg_id,
                            payload: Payload::Gossip { bloom: bloom_clone(&self.index) },
                        },
                    };
                    out.push(gossip);
                    self.msg_id = self.msg_id + 1;
                }
                out
            },
        }
    }

    /// An identifier no other node and no other moment of this node gives:
    /// the node's identity followed by its next sequence number.
    pub fn unique_id(&self) -> (r: String)
        ensures
            r@ == self@.node_id + decimal(self@.msg_id as nat),
    {
        let mut id = self.node_id.clone();
        let number = decimal_text(self.msg_id);
        id.append(number.as_str());
        id
    }

    /// The sequence number of the next message the node sends.
    pub fn msg_id(&self) -> (r: u64)
        ensures
            r == self@.msg_id,
    {
        self.msg_id
    }

    /// The node's own identity.
    pub fn node_id(&self) -> (r: &String)
        ensures
            r@ == self@.node_id,
    {
        &self.node_id
    }

    /// Every integer the node knows.
    pub fn messages(&self) -> (r: &BTreeSet<u64>)
        ensures
            r@ == self@.messages,
    {
        &self.messages
    }

    /// The neighbours the node gossips to, in order.
    pub fn neighborhood(&self) -> (r: &Vec<String>)
        ensures
            texts(r@) == self@.neighborhood,
    {
        &self.neighborhood
    }

    /// Whether the node can handle `event`: `handle` asks for it. Any event
    /// it refuses is a fatal breach of the protocol, or the end of the
    /// sequence numbers.
    pub fn can_handle(&self, event: &Event<Payload>) -> (r: bool)
        ensures
            r == handle_ready(self@, *event),
    {
        match event {
            Event::Message(msg) => self.msg_id < u64::MAX && self.accepts(msg),
            Event::Sync => {
                let n = self.neighborhood.len() as u64;
                self.msg_id <= u64::MAX - n
            },
        }
    }

    /// Whether `msg` is a request the protocol lets arrive at this node.
    pub fn accepts(&self, msg: &Message<Payload>) -> (r: bool)
        ensures
            r == broadcast_ready(*msg, self@),
    {
        match &msg.body.payload {
            Payload::Topology { topology } => has_own_entry(topology, &self.node_id),
            Payload::Gossip { bloom } => bloom_has_bitmap(bloom),
            Payload::BroadcastOk { .. } => false,
            Payload::ReadOk { .. } => false,
            Payload::TopologyOk { .. } => false,
            _ => true,
        }
    }

    /// Every node of the cluster, as the handshake named them.
    pub fn node_ids(&self) -> (r: &Vec<String>)
        ensures
            texts(r@) == self@.peer_ids,
    {
        &self.node_ids
    }

    /// Answers a request of any workload through its reply rules; an answer
    /// goes back to the sender under the next sequence number.
    pub fn answer<P, R>(&mut self, msg: Message<P>) -> (r: Option<Message<R>>) where
        Message<P>: Reply<R, Node>,
        requires
            old(self)@.msg_id < u64::MAX,
            msg.reply_ready(*old(self)),
        ensures
            exists|mid: Node| answered(msg, *old(self), mid, *final(self), r),
    {
        let msg_id = self.msg_id;
        let r = msg.response(self, msg_id);
        let ghost mid = *self;
        if r.is_some() {
            self.msg_id = msg_id + 1;
        }
        assert(answered(msg, *old(self), mid, *self, r));
        r
    }

    /// Applies one request to the replicated state and gives the answer owed,
    /// if any.
    pub fn respond(&mut self, msg: Message<Payload>) -> (r: Option<Payload>)
        requires
            old(self)@.wf(),
            broadcast_ready(msg, old(self)@),
        ensures
            broadcast_reply(msg, old(self)@, final(self)@, r),
    {
        let id = msg.body.msg_id;
        match msg.body.payload {
            Payload::Broadcast { message } => {
                self.messages.insert(message);
                bloom_set(&mut self.index, message);
                Some(Payload::BroadcastOk { in_reply_to: id })
            },
            Payload::Read => Some(
                Payload::ReadOk { messages: self.messages.clone(), in_reply_to: id },
            ),
            Payload::Topology { topology } => match own_neighbors(topology, &self.node_id) {
                Some(n) => {
                    self.neighborhood = n;
                    Some(Payload::TopologyOk { in_reply_to: id })
                },
                None => None,
            },
            Payload::Gossip { bloom } => Some(
                Payload::GossipOk { messages: missing_from(&self.messages, &bloom) },
            ),
            Payload::GossipOk { messages } => {
                self.learn(&messages);
                None
            },
            Payload::BroadcastOk { .. } => None,
            Payload::ReadOk { .. } => None,
            Payload::TopologyOk { .. } => None,
        }
    }

    /// Adds integers to the known set and to the summary.
    fn learn(&mut self, fresh: &Vec<u64>)
        requires
            has_bitmap(old(self)@.summary),
        ensures
            final(self)@ == (NodeModel {
                messages: old(self)@.messages.union(fresh@.to_set()),
                summary: bloom_with_all(old(self)@.summary, fresh@),
                ..old(self)@
            }),
            bits_kept(old(self)@.summary, final(self)@.summary),
            has_bitmap(final(self)@.summary),
            forall|m: u64| #[trigger] fresh@.contains(m) ==> bloom_admits(final(self)@.summary, m),
            old(self)@.summary_grows_to(final(self)@),
            old(self)@.wf() ==> final(self)@.wf(),
    {
        let ghost start = self@;
        proof {
            lemma_bits_kept_refl(start.summary);
            assert(fresh@.subrange(0, 0).to_set() =~= Set::empty());
            assert(start.messages.union(Set::empty()) =~= start.messages);
        }
        for i in 0..fresh.len()
            invariant
                self@ == (NodeModel {
                    messages: start.messages.union(fresh@.subrange(0, i as int).to_set()),
                    summary: bloom_with_all(start.summary, fresh@.subrange(0, i as int)),
                    ..start
                }),
                bits_kept(start.summary, self@.summary),
                has_bitmap(self@.summary),
                forall|j: int| 0 <= j < i ==> bloom_admits(self@.summary, #[trigger] fresh@[j]),
                start.summary_grows_to(self@),
                start.wf() ==> self@.wf(),
        {
            let ghost before = self@.summary;
            self.messages.insert(fresh[i]);
            bloom_set(&mut self.index, fresh[i]);
            proof {
                lemma_bits_kept_trans(start.summary, before, self@.summary);
                let prefix = fresh@.subrange(0, i as int);
                assert(fresh@.subrange(0, i + 1).drop_last() =~= prefix);
                assert(fresh@.subrange(0, i + 1) =~= prefix.push(fresh@[i as int]));
                prefix.lemma_push_to_set_commute(fresh@[i as int]);
                assert(self@.messages =~= start.messages.union(fresh@.subrange(0, i + 1).to_set()));
            }
        }
        proof {
            assert(fresh@.subrange(0, fresh@.len() as int) =~= fresh@);
        }
    }
}

} // verus!
