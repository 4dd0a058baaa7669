use bloomfilter::Bloom;
use maelstrom_challenge::message::broadcast::own_neighbors;
use maelstrom_challenge::message::broadcast::missing_from;
use maelstrom_challenge::message::broadcast::Payload;
use maelstrom_challenge::message::broadcast::EXPECT_ELEMENTS;
use maelstrom_challenge::message::echo;
use maelstrom_challenge::message::init::Init;
use maelstrom_challenge::message::summary::bloom_is_clear;
use maelstrom_challenge::message::unique_id;
use maelstrom_challenge::message::unique_id::decimal_text;
use maelstrom_challenge::message::Body;
use maelstrom_challenge::Event;
use maelstrom_challenge::Message;
use maelstrom_challenge::Node;
use std::collections::BTreeSet;

fn filter() -> Bloom<u64> {
    Bloom::new_for_fp_rate_with_seed(EXPECT_ELEMENTS, 0.001, &[7u8; 32]).unwrap()
}

fn peers() -> Vec<String> {
    vec!["n0".to_string(), "n1".to_string()]
}

fn incoming<P>(src: &str, dest: &str, msg_id: u64, payload: P) -> Message<P> {
    Message {
        src: src.to_string(),
        dest: dest.to_string(),
        body: Body { msg_id, payload },
    }
}

fn to_n0(msg_id: u64, payload: Payload) -> Event<Payload> {
    Event::Message(incoming("c1", "n0", msg_id, payload))
}

fn topology_n0_n1() -> Payload {
    Payload::Topology {
        topology: vec![
            ("n1".to_string(), vec!["n0".to_string()]),
            ("n0".to_string(), vec!["n1".to_string()]),
        ],
    }
}

#[test]
fn concrete_scenario_broadcast_sync_read() {
    let mut node = Node::new("n0".to_string(), peers(), filter());
    let out = node.handle(to_n0(1, Payload::Broadcast { message: 10 }));
    assert_eq!(out.len(), 1);
    assert_eq!(out[0].src, "n0");
    assert_eq!(out[0].dest, "c1");
    assert_eq!(out[0].body.msg_id, 0);
    assert!(matches!(out[0].body.payload, Payload::BroadcastOk { in_reply_to: 1 }));

    let out = node.handle(to_n0(2, topology_n0_n1()));
    assert_eq!(out[0].body.msg_id, 1);
    assert!(matches!(out[0].body.payload, Payload::TopologyOk { in_reply_to: 2 }));
    assert_eq!(node.neighborhood(), &vec!["n1".to_string()]);

    let out = node.handle(Event::Sync);
    assert_eq!(out.len(), 1);
    assert_eq!(out[0].src, "n0");
    assert_eq!(out[0].dest, "n1");
    assert_eq!(out[0].body.msg_id, 2);
    match &out[0].body.payload {
        Payload::Gossip { bloom } => assert!(bloom.check(&10)),
        other => panic!("expected a gossip, got {:?}", other),
    }

    let out = node.handle(to_n0(3, Payload::Read));
    assert_eq!(out[0].body.msg_id, 3);
    match &out[0].body.payload {
        Payload::ReadOk { messages, in_reply_to } => {
            assert_eq!(messages, &BTreeSet::from([10]));
            assert_eq!(*in_reply_to, 3);
        }
        other => panic!("expected read_ok, got {:?}", other),
    }
    assert_eq!(node.msg_id(), 4);
}

#[test]
fn init_acknowledges_handshake() {
    let msg = incoming(
        "c0",
        "n0",
        5,
        Init { node_id: "n0".to_string(), node_ids: vec!["n0".to_string(), "n1".to_string()] },
    );
    let (node, reply) = Node::init(msg, filter());
    assert_eq!(node.node_id(), "n0");
    assert_eq!(node.msg_id(), 1);
    assert!(node.messages().is_empty());
    assert_eq!(reply.src, "n0");
    assert_eq!(reply.dest, "c0");
    assert_eq!(reply.body.msg_id, 0);
    assert_eq!(reply.body.payload.in_reply_to, 5);
}

#[test]
fn broadcast_redelivered_keeps_one_copy() {
    let mut node = Node::new("n0".to_string(), peers(), filter());
    node.handle(to_n0(1, Payload::Broadcast { message: 4 }));
    let once = node.messages().clone();
    let out = node.handle(to_n0(2, Payload::Broadcast { message: 4 }));
    assert!(matches!(out[0].body.payload, Payload::BroadcastOk { in_reply_to: 2 }));
    assert_eq!(node.messages(), &once);
    assert_eq!(node.messages(), &BTreeSet::from([4]));
}

#[test]
fn messages_never_shrink() {
    let mut node = Node::new("n0".to_string(), peers(), filter());
    let mut seen = BTreeSet::new();
    let events = vec![
        to_n0(1, Payload::Broadcast { message: 3 }),
        to_n0(2, topology_n0_n1()),
        Event::Sync,
        to_n0(3, Payload::GossipOk { messages: vec![9, 3, 1] }),
        to_n0(4, Payload::Gossip { bloom: filter() }),
        to_n0(5, Payload::Read),
        to_n0(6, Payload::Broadcast { message: 3 }),
    ];
    for event in events {
        assert!(node.can_handle(&event));
        node.handle(event);
        assert!(seen.is_subset(node.messages()));
        seen = node.messages().clone();
    }
    assert_eq!(seen, BTreeSet::from([1, 3, 9]));
}

#[test]
fn gossip_is_answered_with_what_the_summary_lacks() {
    let mut node = Node::new("n1".to_string(), peers(), filter());
    for (i, m) in [1u64, 2, 3].iter().enumerate() {
        node.handle(to_n0(i as u64, Payload::Broadcast { message: *m }));
    }
    let mut theirs = filter();
    theirs.set(&2);
    let out = node
        .handle(Event::Message(incoming("n0", "n1", 40, Payload::Gossip { bloom: theirs })));
    assert_eq!(out.len(), 1);
    assert_eq!(out[0].dest, "n0");
    assert_eq!(out[0].body.msg_id, 3);
    match &out[0].body.payload {
        Payload::GossipOk { messages } => assert_eq!(messages, &vec![1, 3]),
        other => panic!("expected gossip_ok, got {:?}", other),
    }
}

#[test]
fn gossip_ok_is_learned_without_answer() {
    let mut node = Node::new("n0".to_string(), peers(), filter());
    let out = node
        .handle(Event::Message(incoming("n1", "n0", 8, Payload::GossipOk { messages: vec![5, 6] })));
    assert!(out.is_empty());
    assert_eq!(node.msg_id(), 0);
    assert_eq!(node.messages(), &BTreeSet::from([5, 6]));
    let out = node.handle(to_n0(9, topology_n0_n1()));
    assert_eq!(out.len(), 1);
    let out = node.handle(Event::Sync);
    match &out[0].body.payload {
        Payload::Gossip { bloom } => assert!(bloom.check(&5) && bloom.check(&6)),
        other => panic!("expected a gossip, got {:?}", other),
    }
}

#[test]
fn sync_numbers_each_gossip_in_turn() {
    let mut node = Node::new("n0".to_string(), peers(), filter());
    let topology = Payload::Topology {
        topology: vec![(
            "n0".to_string(),
            vec!["n1".to_string(), "n2".to_string(), "n3".to_string()],
        )],
    };
    node.handle(to_n0(1, topology));
    let out = node.handle(Event::Sync);
    let dests: Vec<&str> = out.iter().map(|m| m.dest.as_str()).collect();
    assert_eq!(dests, vec!["n1", "n2", "n3"]);
    let ids: Vec<u64> = out.iter().map(|m| m.body.msg_id).collect();
    assert_eq!(ids, vec![1, 2, 3]);
    assert_eq!(node.msg_id(), 4);
    let out = node.handle(to_n0(2, Payload::Read));
    assert_eq!(out[0].body.msg_id, 4);
}

#[test]
fn sync_without_neighbours_sends_nothing() {
    let mut node = Node::new("n0".to_string(), peers(), filter());
    let out = node.handle(Event::Sync);
    assert!(out.is_empty());
    assert_eq!(node.msg_id(), 0);
}

#[test]
fn unexpected_acknowledgements_are_refused() {
    let node = Node::new("n0".to_string(), peers(), filter());
    let acks = vec![
        Payload::BroadcastOk { in_reply_to: 0 },
        Payload::ReadOk { messages: BTreeSet::from([1]), in_reply_to: 0 },
        Payload::TopologyOk { in_reply_to: 0 },
    ];
    for ack in acks {
        assert!(!node.can_handle(&to_n0(1, ack)));
    }
    assert!(node.can_handle(&to_n0(1, Payload::Read)));
    assert_eq!(node.msg_id(), 0);
    assert!(node.messages().is_empty());
}

#[test]
fn topology_without_own_entry_is_refused() {
    let node = Node::new("n7".to_string(), peers(), filter());
    assert!(!node.can_handle(&to_n0(1, topology_n0_n1())));
    let mut other = Node::new("n1".to_string(), peers(), filter());
    assert!(other.can_handle(&to_n0(1, topology_n0_n1())));
    other.handle(to_n0(1, topology_n0_n1()));
    assert_eq!(other.neighborhood(), &vec!["n0".to_string()]);
    assert!(node.neighborhood().is_empty());
    assert_eq!(node.msg_id(), 0);
}

#[test]
fn own_neighbors_takes_first_matching_entry() {
    let t = vec![
        ("a".to_string(), vec!["x".to_string()]),
        ("b".to_string(), vec!["y".to_string(), "z".to_string()]),
    ];
    assert_eq!(own_neighbors(t.clone(), &"b".to_string()), Some(vec!["y".to_string(), "z".to_string()]));
    assert_eq!(own_neighbors(t, &"c".to_string()), None);
    assert_eq!(own_neighbors(vec![], &"a".to_string()), None);
}

#[test]
fn missing_from_lists_in_increasing_order() {
    let known = BTreeSet::from([30, 10, 20]);
    assert_eq!(missing_from(&known, &filter()), vec![10, 20, 30]);
    let mut all = filter();
    for m in [10u64, 20, 30] {
        all.set(&m);
    }
    assert!(missing_from(&known, &all).is_empty());
    assert!(missing_from(&BTreeSet::new(), &filter()).is_empty());
}

#[test]
fn echo_is_answered_with_same_text() {
    let mut node = Node::new("n0".to_string(), peers(), filter());
    let msg = incoming("c1", "n0", 3, echo::Payload::Echo { echo: "hola".to_string() });
    let reply = node.answer::<echo::Payload, echo::Payload>(msg).unwrap();
    assert_eq!(reply.dest, "c1");
    assert_eq!(reply.body.msg_id, 0);
    match reply.body.payload {
        echo::Payload::EchoOk { echo, in_reply_to } => {
            assert_eq!(echo, "hola");
            assert_eq!(in_reply_to, 3);
        }
        other => panic!("expected echo_ok, got {:?}", other),
    }
    assert_eq!(node.msg_id(), 1);

}

#[test]
fn generate_gives_node_id_and_counter() {
    let mut node = Node::new("n0".to_string(), peers(), filter());
    let mut ids = Vec::new();
    for i in 0..12u64 {
        let msg = incoming("c1", "n0", i, unique_id::Payload::Generate);
        let reply = node.answer::<unique_id::Payload, unique_id::Payload>(msg).unwrap();
        assert_eq!(reply.body.msg_id, i);
        match reply.body.payload {
            unique_id::Payload::GenerateOk { id, in_reply_to } => {
                assert_eq!(in_reply_to, i);
                ids.push(id);
            }
            other => panic!("expected generate_ok, got {:?}", other),
        }
    }
    assert_eq!(ids[0], "n00");
    assert_eq!(ids[11], "n011");
    assert_eq!(node.unique_id(), "n012");
}

#[test]
fn counter_room_is_reported() {
    let node = Node::new("n0".to_string(), peers(), filter());
    assert!(node.can_handle(&Event::Sync));
    assert!(node.can_handle(&to_n0(1, Payload::Broadcast { message: 1 })));
}

#[test]
fn node_keeps_cluster_from_handshake() {
    let msg = incoming(
        "c0",
        "n1",
        0,
        Init { node_id: "n1".to_string(), node_ids: vec!["n0".to_string(), "n1".to_string()] },
    );
    let (node, _) = Node::init(msg, filter());
    assert_eq!(node.node_ids(), &vec!["n0".to_string(), "n1".to_string()]);
}

#[test]
fn fresh_filter_is_clear_and_admits_nothing() {
    let fresh = filter();
    assert!(bloom_is_clear(&fresh));
    assert!(!fresh.check(&10));
    let mut used = filter();
    used.set(&10);
    assert!(!bloom_is_clear(&used));
}

#[test]
fn sequence_numbers_run_on_across_kinds() {
    let mut node = Node::new("n0".to_string(), peers(), filter());
    let events = vec![
        to_n0(10, topology_n0_n1()),
        to_n0(11, Payload::Broadcast { message: 1 }),
        Event::Sync,
        to_n0(12, Payload::GossipOk { messages: vec![2] }),
        to_n0(13, Payload::Gossip { bloom: filter() }),
        to_n0(14, Payload::Read),
        Event::Sync,
    ];
    let mut ids = Vec::new();
    for event in events {
        for msg in node.handle(event) {
            ids.push(msg.body.msg_id);
        }
    }
    assert_eq!(ids, vec![0, 1, 2, 3, 4, 5]);
    assert_eq!(node.msg_id(), 6);
}

#[test]
fn gossip_with_empty_summary_is_refused() {
    let mut bytes = vec![1u8];
    bytes.extend_from_slice(&0u64.to_le_bytes());
    bytes.extend_from_slice(&1u32.to_le_bytes());
    bytes.extend_from_slice(&[0u8; 32]);
    let empty: Bloom<u64> = Bloom::from_slice(&bytes).unwrap();
    let mut node = Node::new("n0".to_string(), peers(), filter());
    node.handle(to_n0(1, Payload::Broadcast { message: 2 }));
    assert!(!node.can_handle(&to_n0(2, Payload::Gossip { bloom: empty })));
    assert_eq!(node.msg_id(), 1);
    assert_eq!(node.messages(), &BTreeSet::from([2]));
}

#[test]
fn decimal_text_writes_digits() {
    assert_eq!(decimal_text(0), "0");
    assert_eq!(decimal_text(9), "9");
    assert_eq!(decimal_text(10), "10");
    assert_eq!(decimal_text(1234), "1234");
    assert_eq!(decimal_text(u64::MAX), u64::MAX.to_string());
}
