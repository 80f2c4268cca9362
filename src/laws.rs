//! Laws that relate the broker's operations to one another, stated over the
//! registry model that the operations' contracts use.
use vstd::prelude::*;

use crate::broker::{
    deliver, drained, registry_after_attach, registry_after_drain, registry_after_publish,
    QueueModel, RegistryModel,
};
use crate::message::MessageModel;
use crate::topic::{topic_matches_spec, topic_segments};

verus! {

/// The registry after publishing each of `pubs` in turn, first to last.
pub open spec fn publish_all(reg: RegistryModel, pubs: Seq<MessageModel>) -> RegistryModel
    decreases pubs.len(),
{
    if pubs.len() == 0 {
        reg
    } else {
        registry_after_publish(publish_all(reg, pubs.drop_last()), pubs.last().topic, pubs.last().data)
    }
}

/// The publications among `pubs` that a queue with filter `filter` takes, in
/// the order they were published.
pub open spec fn taken_by(filter: Seq<Seq<char>>, pubs: Seq<MessageModel>) -> Seq<MessageModel> {
    pubs.filter(|m: MessageModel| topic_matches_spec(filter, topic_segments(m.topic)))
}

/// A queue keeps its messages in publish order: after a series of publishes,
/// draining it gives what it held before, then the publications whose topics
/// its filter matches, in the order they were published. Its filter stays.
pub proof fn lemma_fifo(reg: RegistryModel, id: Seq<char>, pubs: Seq<MessageModel>)
    requires
        reg.contains_key(id),
    ensures
        publish_all(reg, pubs).contains_key(id),
        publish_all(reg, pubs)[id].filter == reg[id].filter,
        drained(publish_all(reg, pubs), id) == reg[id].messages + taken_by(reg[id].filter, pubs),
    decreases pubs.len(),
{
    reveal(Seq::filter);
    if pubs.len() == 0 {
        assert(reg[id].messages + taken_by(reg[id].filter, pubs) =~= reg[id].messages);
    } else {
        lemma_fifo(reg, id, pubs.drop_last());
        let before = publish_all(reg, pubs.drop_last());
        let q = before[id];
        assert(publish_all(reg, pubs)[id] == deliver(q, pubs.last().topic, pubs.last().data));
        let m = MessageModel { topic: pubs.last().topic, data: pubs.last().data };
        assert(m == pubs.last());
        if topic_matches_spec(q.filter, topic_segments(m.topic)) {
            assert(reg[id].messages + taken_by(reg[id].filter, pubs) =~= (reg[id].messages
                + taken_by(reg[id].filter, pubs.drop_last())).push(m));
        }
    }
}

/// A drain hands out each message once: a second drain of the same queue,
/// with no publish between, gives nothing.
pub proof fn lemma_drain_at_most_once(reg: RegistryModel, id: Seq<char>)
    ensures
        drained(registry_after_drain(reg, id), id) == Seq::<MessageModel>::empty(),
{
}

/// Draining one queue leaves every other queue as it was.
pub proof fn lemma_drain_leaves_others(reg: RegistryModel, id: Seq<char>, other: Seq<char>)
    requires
        other != id,
    ensures
        registry_after_drain(reg, id).contains_key(other) == reg.contains_key(other),
        reg.contains_key(other) ==> registry_after_drain(reg, id)[other] == reg[other],
{
}

/// Attaching replaces: whatever the id's queue held before, a drain right
/// after the attach gives nothing, and the queue has the new filter.
pub proof fn lemma_attach_replaces(reg: RegistryModel, id: Seq<char>, filter_topic: Seq<char>)
    ensures
        drained(registry_after_attach(reg, id, filter_topic), id) == Seq::<MessageModel>::empty(),
        registry_after_attach(reg, id, filter_topic)[id].filter == topic_segments(filter_topic),
{
}

/// One publish reaches every queue whose filter matches the topic, appending
/// the message once, and no other queue; no queue comes or goes.
pub proof fn lemma_fan_out(
    reg: RegistryModel,
    topic: Seq<char>,
    data: serde_json::Value,
    id: Seq<char>,
)
    ensures
        registry_after_publish(reg, topic, data).dom() == reg.dom(),
        reg.contains_key(id) ==> registry_after_publish(reg, topic, data)[id] == (QueueModel {
            filter: reg[id].filter,
            messages: if topic_matches_spec(reg[id].filter, topic_segments(topic)) {
                reg[id].messages.push(MessageModel { topic, data })
            } else {
                reg[id].messages
            },
        }),
{
    assert(registry_after_publish(reg, topic, data).dom() =~= reg.dom());
}

} // verus!
