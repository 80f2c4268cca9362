//! The broker: a registry of named queues, each bound to a topic filter, with
//! attach, publish and drain as its only operations.
use vstd::prelude::*;

use crate::message::{copy_payload, message_models, Message, MessageModel};
use crate::topic::{parse_topic, topic_matches, topic_matches_spec, topic_segments, views_of};

verus! {

/// What a queue is, as contracts speak of it: its filter's segments and the
/// messages it holds, oldest first.
pub struct QueueModel {
    pub filter: Seq<Seq<char>>,
    pub messages: Seq<MessageModel>,
}

/// The registry as contracts speak of it: queue id to queue.
pub type RegistryModel = Map<Seq<char>, QueueModel>;

/// A fresh queue for the filter topic `filter_topic`.
pub open spec fn fresh_queue(filter_topic: Seq<char>) -> QueueModel {
    QueueModel { filter: topic_segments(filter_topic), messages: seq![] }
}

/// `q` after a message on `topic` with `data` was published: the message is
/// appended when the queue's filter matches the topic, else nothing changes.
pub open spec fn deliver(q: QueueModel, topic: Seq<char>, data: serde_json::Value) -> QueueModel {
    if topic_matches_spec(q.filter, topic_segments(topic)) {
        QueueModel { filter: q.filter, messages: q.messages.push(MessageModel { topic, data }) }
    } else {
        q
    }
}

/// The registry after `attach(id, filter_topic)`: the id names a fresh queue,
/// whatever it named before.
pub open spec fn registry_after_attach(
    reg: RegistryModel,
    id: Seq<char>,
    filter_topic: Seq<char>,
) -> RegistryModel {
    reg.insert(id, fresh_queue(filter_topic))
}

/// The registry after one publish: every queue gets the message delivered.
pub open spec fn registry_after_publish(
    reg: RegistryModel,
    topic: Seq<char>,
    data: serde_json::Value,
) -> RegistryModel {
    Map::new(|k: Seq<char>| reg.contains_key(k), |k: Seq<char>| deliver(reg[k], topic, data))
}

/// What `drain(id)` returns: the queue's messages, or nothing for an unknown id.
pub open spec fn drained(reg: RegistryModel, id: Seq<char>) -> Seq<MessageModel> {
    if reg.contains_key(id) {
        reg[id].messages
    } else {
        seq![]
    }
}

/// The registry after `drain(id)`: that queue is emptied, its filter kept.
pub open spec fn registry_after_drain(reg: RegistryModel, id: Seq<char>) -> RegistryModel {
    if reg.contains_key(id) {
        reg.insert(id, QueueModel { filter: reg[id].filter, messages: seq![] })
    } else {
        reg
    }
}

struct QueueEntry {
    id: String,
    filter: Vec<String>,
    messages: Vec<Message>,
}

spec fn entry_model(e: QueueEntry) -> QueueModel {
    QueueModel { filter: views_of(e.filter@), messages: message_models(e.messages@) }
}

spec fn ids_unique(entries: Seq<QueueEntry>) -> bool {
    forall|i: int, j: int|
        0 <= i < entries.len() && 0 <= j < entries.len() && i != j ==> entries[i].id@
            != entries[j].id@
}

spec fn has_id(entries: Seq<QueueEntry>, k: Seq<char>) -> bool {
    exists|i: int| 0 <= i < entries.len() && entries[i].id@ == k
}

spec fn registry_model(entries: Seq<QueueEntry>) -> RegistryModel {
    Map::new(
        |k: Seq<char>| has_id(entries, k),
        |k: Seq<char>|
            entry_model(entries[choose|i: int| 0 <= i < entries.len() && entries[i].id@ == k]),
    )
}

proof fn lemma_model_at(entries: Seq<QueueEntry>, i: int)
    requires
        ids_unique(entries),
        0 <= i < entries.len(),
    ensures
        registry_model(entries).contains_key(entries[i].id@),
        registry_model(entries)[entries[i].id@] == entry_model(entries[i]),
{
    let k = entries[i].id@;
    assert(has_id(entries, k));
    let j = choose|j: int| 0 <= j < entries.len() && entries[j].id@ == k;
    assert(j == i);
}

proof fn lemma_model_update(entries: Seq<QueueEntry>, idx: int, e: QueueEntry)
    requires
        ids_unique(entries),
        0 <= idx < entries.len(),
        e.id@ == entries[idx].id@,
    ensures
        ids_unique(entries.update(idx, e)),
        registry_model(entries.update(idx, e)) == registry_model(entries).insert(
            e.id@,
            entry_model(e),
        ),
{
    let new = entries.update(idx, e);
    assert(ids_unique(new));
    let m = registry_model(entries).insert(e.id@, entry_model(e));
    assert forall|k: Seq<char>| #[trigger] registry_model(new).contains_key(k) <==> m.contains_key(k) by {
        if has_id(new, k) {
            let i = choose|i: int| 0 <= i < new.len() && new[i].id@ == k;
            if i != idx {
                assert(has_id(entries, k));
            }
        }
        if has_id(entries, k) {
            let i = choose|i: int| 0 <= i < entries.len() && entries[i].id@ == k;
            assert(new[i].id@ == k);
        }
        if k == e.id@ {
            assert(new[idx].id@ == k);
        }
    }
    assert forall|k: Seq<char>| #[trigger] registry_model(new).contains_key(k) implies registry_model(new)[k]
        == m[k] by {
        let i = choose|i: int| 0 <= i < new.len() && new[i].id@ == k;
        lemma_model_at(new, i);
        if i != idx {
            lemma_model_at(entries, i);
        }
    }
    assert(registry_model(new) =~= m);
}

proof fn lemma_model_push(entries: Seq<QueueEntry>, e: QueueEntry)
    requires
        ids_unique(entries),
        !has_id(entries, e.id@),
    ensures
        ids_unique(entries.push(e)),
        registry_model(entries.push(e)) == registry_model(entries).insert(e.id@, entry_model(e)),
{
    let new = entries.push(e);
    assert(ids_unique(new));
    let m = registry_model(entries).insert(e.id@, entry_model(e));
    assert forall|k: Seq<char>| #[trigger] registry_model(new).contains_key(k) <==> m.contains_key(k) by {
        if has_id(new, k) {
            let i = choose|i: int| 0 <= i < new.len() && new[i].id@ == k;
            if i != entries.len() {
                assert(entries[i].id@ == k);
            }
        }
        if has_id(entries, k) {
            let i = choose|i: int| 0 <= i < entries.len() && entries[i].id@ == k;
            assert(new[i].id@ == k);
        }
        if k == e.id@ {
            assert(new[entries.len() as int].id@ == k);
        }
    }
    assert forall|k: Seq<char>| #[trigger] registry_model(new).contains_key(k) implies registry_model(new)[k]
        == m[k] by {
        let i = choose|i: int| 0 <= i < new.len() && new[i].id@ == k;
        lemma_model_at(new, i);
        if i != entries.len() {
            assert(new[i] == entries[i]);
            lemma_model_at(entries, i);
        }
    }
    assert(registry_model(new) =~= m);
}

/// The broker: sole owner of the queue registry.
pub struct Broker {
    queues: Vec<QueueEntry>,
}

impl View for Broker {
    type V = RegistryModel;

    closed spec fn view(&self) -> RegistryModel {
        registry_model(self.queues@)
    }
}

impl Broker {
    /// The registry's invariant: queue ids are unique.
    pub closed spec fn wf(&self) -> bool {
        ids_unique(self.queues@)
    }

    /// A broker with no queues.
    pub fn new() -> (r: Broker)
        ensures
            r.wf(),
            r@ == RegistryModel::empty(),
    {
        let r = Broker { queues: Vec::new() };
        assert(r@ =~= RegistryModel::empty());
        r
    }

    /// The position of the queue named `id`, if there is one.
    fn find(&self, id: &String) -> (r: Option<usize>)
        requires
            self.wf(),
        ensures
            r is Some ==> r->0 < self.queues@.len() && self.queues@[r->0 as int].id@ == id@,
            r is None ==> !has_id(self.queues@, id@),
    {
        let mut i: usize = 0;
        while i < self.queues.len()
            invariant
                i <= self.queues@.len(),
                forall|j: int| 0 <= j < i ==> self.queues@[j].id@ != id@,
            decreases self.queues@.len() - i,
        {
            if self.queues[i].id == *id {
                return Some(i);
            }
            i = i + 1;
        }
        None
    }

    /// Binds queue `id` to the filter parsed from `topic`, with an empty
    /// buffer. An earlier queue of the same id is replaced, with whatever it
    /// held.
    pub fn attach_queue(&mut self, id: String, topic: String)
        requires
            old(self).wf(),
        ensures
            final(self).wf(),
            final(self)@ == registry_after_attach(old(self)@, id@, topic@),
    {
        let segments = parse_topic(topic.as_str());
        let entry = QueueEntry { id, filter: segments, messages: Vec::new() };
        assert(entry_model(entry) == fresh_queue(topic@)) by {
            assert(message_models(entry.messages@) =~= seq![]);
        }
        match self.find(&entry.id) {
            Some(idx) => {
                proof {
                    lemma_model_update(self.queues@, idx as int, entry);
                }
                self.queues.set(idx, entry);
            },
            None => {
                proof {
                    lemma_model_push(self.queues@, entry);
                }
                self.queues.push(entry);
            },
        }
    }

    /// Appends a copy of the message (`topic` as given, `data`) to every queue
    /// whose filter matches `topic`, and to no other. The set of queues stays
    /// as it was.
    pub fn publish(&mut self, topic: &str, data: serde_json::Value)
        requires
            old(self).wf(),
        ensures
            final(self).wf(),
            final(self)@ == registry_after_publish(old(self)@, topic@, data),
    {
        let segments = parse_topic(topic);
        let ghost old_q = self.queues@;
        let mut i: usize = 0;
        while i < self.queues.len()
            invariant
                self.queues@.len() == old_q.len(),
                i <= old_q.len(),
                ids_unique(old_q),
                views_of(segments@) == topic_segments(topic@),
                forall|j: int| 0 <= j < old_q.len() ==> #[trigger] self.queues@[j].id == old_q[j].id,
                forall|j: int|
                    0 <= j < i ==> #[trigger] entry_model(self.queues@[j]) == deliver(
                        entry_model(old_q[j]),
                        topic@,
                        data,
                    ),
                forall|j: int| i <= j < old_q.len() ==> #[trigger] self.queues@[j] == old_q[j],
            decreases old_q.len() - i,
        {
            let ghost before = self.queues@[i as int];
            if topic_matches(self.queues[i].filter.as_slice(), segments.as_slice()) {
                let m = Message::new(topic.to_owned(), copy_payload(&data));
                self.queues[i].messages.push(m);
                assert(message_models(self.queues@[i as int].messages@) =~= message_models(
                    before.messages@,
                ).push(m@));
            }
            assert(entry_model(self.queues@[i as int]) == deliver(entry_model(old_q[i as int]), topic@, data));
            i = i + 1;
        }
        proof {
            let new = self.queues@;
            assert(ids_unique(new));
            let m = registry_after_publish(registry_model(old_q), topic@, data);
            assert forall|k: Seq<char>| #[trigger] registry_model(new).contains_key(k) <==> m.contains_key(k) by {
                if has_id(new, k) {
                    let i = choose|i: int| 0 <= i < new.len() && new[i].id@ == k;
                    assert(old_q[i].id@ == k);
                }
                if has_id(old_q, k) {
                    let i = choose|i: int| 0 <= i < old_q.len() && old_q[i].id@ == k;
                    assert(new[i].id@ == k);
                }
            }
            assert forall|k: Seq<char>| #[trigger] registry_model(new).contains_key(k) implies registry_model(new)[k]
                == m[k] by {
                let i = choose|i: int| 0 <= i < new.len() && new[i].id@ == k;
                lemma_model_at(new, i);
                lemma_model_at(old_q, i);
            }
            assert(registry_model(new) =~= m);
        }
    }

    /// Takes the messages of queue `id` out of it, oldest first, and leaves
    /// it empty. An unknown id gives an empty list and changes nothing.
    pub fn get_messages(&mut self, id: &str) -> (r: Vec<Message>)
        requires
            old(self).wf(),
        ensures
            final(self).wf(),
            message_models(r@) == drained(old(self)@, id@),
            final(self)@ == registry_after_drain(old(self)@, id@),
    {
        let key = id.to_owned();
        match self.find(&key) {
            Some(idx) => {
                let ghost old_q = self.queues@;
                let mut out: Vec<Message> = Vec::new();
                std::mem::swap(&mut out, &mut self.queues[idx].messages);
                proof {
                    lemma_model_at(old_q, idx as int);
                    assert(self.queues@ =~= old_q.update(idx as int, self.queues@[idx as int]));
                    lemma_model_update(old_q, idx as int, self.queues@[idx as int]);
                    assert(message_models(self.queues@[idx as int].messages@) =~= seq![]);
                }
                out
            },
            None => {
                let r: Vec<Message> = Vec::new();
                assert(message_models(r@) =~= seq![]);
                r
            },
        }
    }
}

} // verus!
