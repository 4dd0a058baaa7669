use vstd::prelude::*;

use crate::event_handled;
use crate::message::broadcast::Payload;
use crate::message::summary::bloom_admits;
use crate::message::summary::bloom_bytes;
use crate::message::Message;
use crate::Event;
use crate::NodeModel;

verus! {

/// `states` is a run of a node through `events`: each event takes the state
/// before it to the state after it, with the matching result.
pub open spec fn is_run(
    events: Seq<Event<Payload>>,
    states: Seq<NodeModel>,
    results: Seq<Vec<Message<Payload>>>,
) -> bool {
    &&& states.len() == events.len() + 1
    &&& results.len() == events.len()
    &&& forall|i: int|
        0 <= i < events.len() ==> event_handled(
            #[trigger] events[i],
            states[i],
            states[i + 1],
            results[i],
        )
}

/// What one result sends.
pub open spec fn sent(r: Vec<Message<Payload>>) -> Seq<Message<Payload>> {
    r@
}

/// Everything a run sends, in order.
pub open spec fn all_sent(results: Seq<Vec<Message<Payload>>>) -> Seq<
    Message<Payload>,
>
    decreases results.len(),
{
    if results.len() == 0 {
        Seq::empty()
    } else {
        sent(results[0]) + all_sent(results.drop_first())
    }
}

/// No event makes the node forget an integer.
pub proof fn lemma_messages_grow(
    event: Event<Payload>,
    before: NodeModel,
    after: NodeModel,
    r: Vec<Message<Payload>>,
)
    requires
        event_handled(event, before, after, r),
    ensures
        before.messages.subset_of(after.messages),
{
}

/// Along a run the set of known integers only grows.
pub proof fn lemma_run_messages_grow(
    events: Seq<Event<Payload>>,
    states: Seq<NodeModel>,
    results: Seq<Vec<Message<Payload>>>,
)
    requires
        is_run(events, states, results),
    ensures
        forall|i: int, j: int|
            0 <= i <= j < states.len() ==> states[i].messages.subset_of(states[j].messages),
    decreases events.len(),
{
    if events.len() > 0 {
        lemma_run_messages_grow(events.drop_first(), states.drop_first(), results.drop_first());
        assert(is_run(events.drop_first(), states.drop_first(), results.drop_first())) by {
            assert forall|i: int| 0 <= i < events.len() - 1 implies event_handled(
                #[trigger] events.drop_first()[i],
                states.drop_first()[i],
                states.drop_first()[i + 1],
                results.drop_first()[i],
            ) by {
                assert(event_handled(events[i + 1], states[i + 1], states[i + 2], results[i + 1]));
            }
        }
        lemma_messages_grow(events[0], states[0], states[1], results[0]);
        assert forall|i: int, j: int| 0 <= i <= j < states.len() implies states[i].messages.subset_of(
            states[j].messages,
        ) by {
            if i == 0 && j > 0 {
                assert(states.drop_first()[0] == states[1]);
                assert(states.drop_first()[j - 1] == states[j]);
                assert(states.drop_first()[0].messages.subset_of(
                    states.drop_first()[j - 1].messages,
                ));
                assert forall|x: u64| states[0].messages.contains(x) implies states[j].messages.contains(
                    x,
                ) by {
                    assert(states[1].messages.contains(x));
                }
            } else if i > 0 {
                assert(states.drop_first()[i - 1] == states[i]);
                assert(states.drop_first()[j - 1] == states[j]);
            }
        }
    }
}

/// Every event sends its messages under consecutive sequence numbers,
/// starting at the node's counter, and moves the counter past them.
pub proof fn lemma_sequence_numbers(
    event: Event<Payload>,
    before: NodeModel,
    after: NodeModel,
    r: Vec<Message<Payload>>,
)
    requires
        event_handled(event, before, after, r),
    ensures
        after.msg_id == before.msg_id + sent(r).len(),
        forall|i: int|
            0 <= i < sent(r).len() ==> (#[trigger] sent(r)[i]).body.msg_id == before.msg_id + i,
{
}

/// Over a whole run, the messages sent carry the sequence numbers that
/// follow one another from the first state's counter, whatever their kind.
pub proof fn lemma_run_sequence_numbers(
    events: Seq<Event<Payload>>,
    states: Seq<NodeModel>,
    results: Seq<Vec<Message<Payload>>>,
)
    requires
        is_run(events, states, results),
    ensures
        states.last().msg_id == states[0].msg_id + all_sent(results).len(),
        forall|k: int|
            0 <= k < all_sent(results).len() ==> (#[trigger] all_sent(results)[k]).body.msg_id
                == states[0].msg_id + k,
    decreases events.len(),
{
    if events.len() > 0 {
        let rest = results.drop_first();
        assert(is_run(events.drop_first(), states.drop_first(), rest)) by {
            assert forall|i: int| 0 <= i < events.len() - 1 implies event_handled(
                #[trigger] events.drop_first()[i],
                states.drop_first()[i],
                states.drop_first()[i + 1],
                rest[i],
            ) by {
                assert(event_handled(events[i + 1], states[i + 1], states[i + 2], results[i + 1]));
            }
        }
        lemma_run_sequence_numbers(events.drop_first(), states.drop_first(), rest);
        lemma_sequence_numbers(events[0], states[0], states[1], results[0]);
        let first = sent(results[0]);
        assert(all_sent(results) == first + all_sent(rest));
        assert forall|k: int| 0 <= k < all_sent(results).len() implies (#[trigger] all_sent(
            results,
        )[k]).body.msg_id == states[0].msg_id + k by {
            if k >= first.len() {
                assert(all_sent(results)[k] == all_sent(rest)[k - first.len()]);
            }
        }
    } else {
        assert(all_sent(results) == Seq::<Message<Payload>>::empty());
    }
}

/// Delivering a broadcast of an integer the node already knows leaves the
/// known set as it was.
pub proof fn lemma_broadcast_redelivered(
    msg: Message<Payload>,
    value: u64,
    before: NodeModel,
    after: NodeModel,
    r: Vec<Message<Payload>>,
)
    requires
        msg.body.payload == (Payload::Broadcast { message: value }),
        before.messages.contains(value),
        event_handled(Event::Message(msg), before, after, r),
    ensures
        after.messages == before.messages,
{
    assert(before.messages.insert(value) =~= before.messages);
}

/// Once a run delivers a broadcast of `value`, every later state knows it,
/// whatever events come between; a later read lists it, once, in its set.
pub proof fn lemma_run_keeps_broadcast(
    events: Seq<Event<Payload>>,
    states: Seq<NodeModel>,
    results: Seq<Vec<Message<Payload>>>,
    i: int,
    msg: Message<Payload>,
    value: u64,
)
    requires
        is_run(events, states, results),
        0 <= i < events.len(),
        events[i] == Event::Message(msg),
        msg.body.payload == (Payload::Broadcast { message: value }),
    ensures
        forall|j: int| i < j < states.len() ==> #[trigger] states[j].messages.contains(value),
{
    assert(event_handled(events[i], states[i], states[i + 1], results[i]));
    assert(states[i + 1].messages.contains(value));
    lemma_run_messages_grow(events, states, results);
    assert forall|j: int| i < j < states.len() implies #[trigger] states[j].messages.contains(value) by {
        assert(states[i + 1].messages.subset_of(states[j].messages));
    }
}

/// A gossip push never changes the known set of the node that receives it;
/// an answer that carries only integers the node knows leaves it as it was.
pub proof fn lemma_gossip_redelivered(
    msg: Message<Payload>,
    before: NodeModel,
    after: NodeModel,
    r: Vec<Message<Payload>>,
)
    requires
        event_handled(Event::Message(msg), before, after, r),
        match msg.body.payload {
            Payload::Gossip { .. } => true,
            Payload::GossipOk { messages } => messages@.to_set().subset_of(before.messages),
            _ => false,
        },
    ensures
        after.messages == before.messages,
{
    match msg.body.payload {
        Payload::GossipOk { messages } => {
            assert(before.messages.union(messages@.to_set()) =~= before.messages);
        },
        _ => {},
    }
}

/// One gossip exchange: node A pushes its summary to B, B answers, A takes
/// the answer in. Afterwards A knows every integer B knew, except those that
/// A's summary admitted already; an admitted integer that A does not know is
/// a false positive of the filter, left for a later round.
pub proof fn lemma_gossip_exchange(
    push: Message<Payload>,
    answer: Message<Payload>,
    a0: NodeModel,
    a1: NodeModel,
    b0: NodeModel,
    b1: NodeModel,
    rb: Vec<Message<Payload>>,
    ra: Vec<Message<Payload>>,
)
    requires
        match push.body.payload {
            Payload::Gossip { bloom } => bloom_bytes(bloom) == a0.summary,
            _ => false,
        },
        event_handled(Event::Message(push), b0, b1, rb),
        rb@.len() == 1,
        answer.body.payload == rb@[0].body.payload,
        event_handled(Event::Message(answer), a0, a1, ra),
    ensures
        forall|x: u64| #[trigger]
            b0.messages.contains(x) ==> a1.messages.contains(x) || bloom_admits(a0.summary, x),
{
}

} // verus!
