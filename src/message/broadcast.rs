use bloomfilter::Bloom;
use std::collections::BTreeSet;
use vstd::prelude::*;

use vstd::std_specs::btree::increasing_seq;
use vstd::std_specs::cmp::OrdSpec;
use vstd::std_specs::iter::IteratorSpec;
use vstd::std_specs::btree::spec_btree_keys_iter;
use super::summary::bloom_admits;
use super::summary::bloom_bytes;
use super::summary::bits_kept;
use super::summary::bloom_check;
use super::summary::bloom_with;
use super::summary::has_bitmap;
use super::Message;
use super::Reply;
use crate::Node;
use crate::NodeModel;

verus! {

broadcast use vstd::std_specs::btree::group_btree_axioms, vstd::laws_cmp::group_laws_cmp;

/// Milliseconds between two gossip rounds.
///
/// On a grid of `n` nodes an update needs about `sqrt(n)` hops, each costing
/// the link latency plus the gossip interval `G`. For 25 nodes, a 100 ms
/// latency and a 2 s propagation bound, `2000 = (100 + G) * 5` gives
/// `G = 300`. A round costs about 8 messages (2 directions, 2 grid dimensions,
/// a push and its answer); at most 20 messages per operation allow `G` down
/// to 120. The interval is taken from the range [120, 300].
pub const GOSSIP_INTERVAL: u64 = 120;

/// How many distinct integers the summary filter is sized for.
///
/// Its false-positive rate is one in a thousand: an element then reaches a
/// grid corner, after about five hops along one of two paths, in all of
/// 1000 elements with probability above 0.97.
pub const EXPECT_ELEMENTS: usize = 1_100;

/// The payloads of the broadcast workload.
#[derive(Debug)]
#[allow(inconsistent_fields)]
pub enum Payload {
    Broadcast { message: u64 },
    BroadcastOk { in_reply_to: u64 },
    Read,
    ReadOk { messages: BTreeSet<u64>, in_reply_to: u64 },
    /// The neighbours of each node. A node's first entry is the one that
    /// counts; the wire form, a JSON object, holds each node once.
    Topology { topology: Vec<(String, Vec<String>)> },
    TopologyOk { in_reply_to: u64 },
    /// The sender's summary of what it knows.
    Gossip { bloom: Bloom<u64> },
    /// What the receiver of a gossip knows and the summary did not admit.
    GossipOk { messages: Vec<u64> },
}

/// The neighbour list of the first entry for node `id`, as text.
pub open spec fn topology_entry(t: Seq<(String, Vec<String>)>, id: Seq<char>) -> Option<
    Seq<Seq<char>>,
>
    decreases t.len(),
{
    if t.len() == 0 {
        None
    } else if t[0].0@ == id {
        Some(texts(t[0].1@))
    } else {
        topology_entry(t.drop_first(), id)
    }
}

/// The text of each string.
pub open spec fn texts(v: Seq<String>) -> Seq<Seq<char>> {
    v.map_values(|s: String| s@)
}

/// Each element is below the next.
pub open spec fn strictly_increasing(s: Seq<u64>) -> bool {
    forall|i: int, j: int| 0 <= i < j < s.len() ==> s[i] < s[j]
}

/// The integers of `known` that the filter with bytes `summary` does not admit.
pub open spec fn not_admitted(known: Set<u64>, summary: Seq<u8>) -> Set<u64> {
    known.filter(|m: u64| !bloom_admits(summary, m))
}

/// The summary bytes after recording each of `s` in turn.
pub open spec fn bloom_with_all(bytes: Seq<u8>, s: Seq<u64>) -> Seq<u8>
    decreases s.len(),
{
    if s.len() == 0 {
        bytes
    } else {
        bloom_with(bloom_with_all(bytes, s.drop_last()), s.last())
    }
}

/// The requests a broadcast node in state `b` can be sent. Acknowledgements
/// of requests it never makes, a topology without its own entry and a gossip
/// whose summary has no bitmap are fatal breaches of the protocol.
pub open spec fn broadcast_ready(msg: Message<Payload>, b: NodeModel) -> bool {
    match msg.body.payload {
        Payload::Topology { topology } => topology_entry(topology@, b.node_id) is Some,
        Payload::Gossip { bloom } => has_bitmap(bloom_bytes(bloom)),
        Payload::BroadcastOk { .. } => false,
        Payload::ReadOk { .. } => false,
        Payload::TopologyOk { .. } => false,
        _ => true,
    }
}

/// How a broadcast node answers `msg` from state `b`, moving to state `a`.
pub open spec fn broadcast_reply(msg: Message<Payload>, b: NodeModel, a: NodeModel, r: Option<Payload>) -> bool {
    let id = msg.body.msg_id;
    match msg.body.payload {
        Payload::Broadcast { message } => {
            &&& a == NodeModel {
                messages: b.messages.insert(message),
                summary: bloom_with(b.summary, message),
                ..b
            }
            &&& bloom_admits(a.summary, message)
            &&& bits_kept(b.summary, a.summary)
            &&& b.summary_grows_to(a)
            &&& b.wf() ==> a.wf()
            &&& r == Some(Payload::BroadcastOk { in_reply_to: id })
        },
        Payload::Read => {
            &&& a == b
            &&& match r {
                Some(Payload::ReadOk { messages, in_reply_to }) => {
                    messages@ == b.messages && in_reply_to == id
                },
                _ => false,
            }
        },
        Payload::Topology { topology } => match topology_entry(topology@, b.node_id) {
            Some(n) => {
                &&& a == NodeModel { neighborhood: n, ..b }
                &&& r == Some(Payload::TopologyOk { in_reply_to: id })
            },
            None => a == b && r is None,
        },
        Payload::Gossip { bloom } => {
            &&& a == b
            &&& match r {
                Some(Payload::GossipOk { messages }) => {
                    &&& messages@.to_set() == not_admitted(b.messages, bloom_bytes(bloom))
                    &&& strictly_increasing(messages@)
                },
                _ => false,
            }
        },
        Payload::GossipOk { messages } => {
            &&& a == NodeModel {
                messages: b.messages.union(messages@.to_set()),
                summary: bloom_with_all(b.summary, messages@),
                ..b
            }
            &&& forall|m: u64| #[trigger] messages@.contains(m) ==> bloom_admits(a.summary, m)
            &&& bits_kept(b.summary, a.summary)
            &&& b.summary_grows_to(a)
            &&& b.wf() ==> a.wf()
            &&& r is None
        },
        _ => a == b && r is None,
    }
}

/// Whether the topology has an entry for node `id`.
pub fn has_own_entry(topology: &Vec<(String, Vec<String>)>, id: &String) -> (r: bool)
    ensures
        r == topology_entry(topology@, id@) is Some,
{
    let mut i: usize = 0;
    while i < topology.len()
        invariant
            0 <= i <= topology@.len(),
            forall|j: int| 0 <= j < i ==> topology@[j].0@ != id@,
        decreases topology@.len() - i,
    {
        if topology[i].0 == *id {
            proof {
                lemma_topology_entry_skip(topology@, id@, i as int);
                assert(topology@.subrange(i as int, topology@.len() as int)[0] == topology@[i as int]);
            }
            return true;
        }
        i = i + 1;
    }
    proof {
        lemma_topology_entry_skip(topology@, id@, i as int);
    }
    false
}

proof fn lemma_topology_entry_skip(t: Seq<(String, Vec<String>)>, id: Seq<char>, i: int)
    requires
        0 <= i <= t.len(),
        forall|j: int| 0 <= j < i ==> t[j].0@ != id,
    ensures
        topology_entry(t, id) == topology_entry(t.subrange(i, t.len() as int), id),
    decreases i,
{
    if i > 0 {
        lemma_topology_entry_skip(t.drop_first(), id, i - 1);
        assert(t.drop_first().subrange(i - 1, t.len() - 1) =~= t.subrange(i, t.len() as int));
    } else {
        assert(t.subrange(0, t.len() as int) =~= t);
    }
}

/// Takes the neighbour list of node `id` out of a topology.
pub fn own_neighbors(topology: Vec<(String, Vec<String>)>, id: &String) -> (r: Option<
    Vec<String>,
>)
    ensures
        match r {
            Some(n) => topology_entry(topology@, id@) == Some(texts(n@)),
            None => topology_entry(topology@, id@) is None,
        },
{
    let mut i: usize = 0;
    while i < topology.len()
        invariant
            0 <= i <= topology@.len(),
            forall|j: int| 0 <= j < i ==> topology@[j].0@ != id@,
        ensures
            0 <= i <= topology@.len(),
            forall|j: int| 0 <= j < i ==> topology@[j].0@ != id@,
            i < topology@.len() ==> topology@[i as int].0@ == id@,
        decreases topology@.len() - i,
    {
        if topology[i].0 == *id {
            break;
        }
        i = i + 1;
    }
    proof {
        lemma_topology_entry_skip(topology@, id@, i as int);
    }
    if i == topology.len() {
        return None;
    }
    let ghost t0 = topology@;
    let mut entries = topology;
    let entry = entries.swap_remove(i);
    assert(t0.subrange(i as int, t0.len() as int)[0] == t0[i as int]);
    Some(entry.1)
}

/// The integers of `known`, in increasing order, that `bloom` does not admit.
pub fn missing_from(known: &BTreeSet<u64>, bloom: &Bloom<u64>) -> (r: Vec<u64>)
    requires
        has_bitmap(bloom_bytes(*bloom)),
    ensures
        r@.to_set() == not_admitted(known@, bloom_bytes(*bloom)),
        strictly_increasing(r@),
{
    let mut out: Vec<u64> = Vec::new();
    let ghost keys = spec_btree_keys_iter(known).remaining();
    let ghost sorted = keys.unref();
    let ghost summary = bloom_bytes(*bloom);
    proof {
        broadcast use vstd::laws_cmp::lemma_ref_obeys_cmp_spec;

        assert(sorted.to_set() == known@);
        assert(vstd::laws_cmp::obeys_cmp::<u64>());
        assert(vstd::laws_cmp::obeys_cmp::<&u64>());
        vstd::std_specs::btree::axiom_increasing_seq_meaning::<&u64>(keys);
        assert forall|i: int, j: int| 0 <= i < j < sorted.len() implies sorted[i] < sorted[j] by {
            assert(<&u64 as OrdSpec>::cmp_spec(&keys[i], &keys[j]) is Less);
            assert((*keys[i]).cmp_spec(&*keys[j]) is Less);
        }
    }
    for m in it: known.iter()
        invariant
            it.seq() == keys,
            sorted == keys.unref(),
            summary == bloom_bytes(*bloom),
            has_bitmap(summary),
            strictly_increasing(sorted),
            forall|x: u64|
                out@.contains(x) <==> exists|k: int|
                    0 <= k < it.index() && sorted[k] == x && !bloom_admits(summary, x),
            strictly_increasing(out@),
            forall|i: int, k: int|
                0 <= i < out.len() && it.index() <= k < sorted.len() ==> out@[i] < sorted[k],
    {
        let ghost k = it.index();
        let ghost before = out@;
        assert(sorted[k] == *m);
        if !bloom_check(bloom, *m) {
            out.push(*m);
            assert(out@.last() == sorted[k]);
        }
        proof {
            assert forall|x: u64| #[trigger]
                out@.contains(x) <==> exists|j: int|
                    0 <= j < k + 1 && sorted[j] == x && !bloom_admits(summary, x) by {
                if exists|j: int| 0 <= j < k + 1 && sorted[j] == x && !bloom_admits(summary, x) {
                    let j = choose|j: int|
                        0 <= j < k + 1 && sorted[j] == x && !bloom_admits(summary, x);
                    if j < k {
                        assert(before.contains(x));
                        let t = choose|t: int| 0 <= t < before.len() && before[t] == x;
                        assert(out@[t] == x);
                    } else {
                        assert(out@[out.len() - 1] == x);
                    }
                }
                if out@.contains(x) {
                    let t = choose|t: int| 0 <= t < out.len() && out@[t] == x;
                    if t < before.len() {
                        assert(before.contains(x));
                    } else {
                        assert(x == sorted[k]);
                    }
                }
            }
        }
    }
    proof {
        assert(out@.to_set() =~= not_admitted(known@, summary)) by {
            assert forall|x: u64| known@.contains(x) implies exists|k: int|
                0 <= k < sorted.len() && sorted[k] == x by {
                assert(sorted.to_set().contains(x));
            }
        }
    }
    out
}

} // verus!

verus! {

impl Reply<Payload, Node> for Message<Payload> {
    open spec fn reply_spec(self, before: Node, after: Node, r: Option<Payload>) -> bool {
        broadcast_reply(self, before@, after@, r)
    }

    /// The node's summary admits all it knows and has a bitmap, and the
    /// request is one it can be sent.
    open spec fn reply_ready(self, state: Node) -> bool {
        state@.wf() && broadcast_ready(self, state@)
    }

    fn reply(self, state: &mut Node) -> (r: Option<Payload>) {
        state.respond(self)
    }
}

} // verus!
