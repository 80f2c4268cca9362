//! The broker shared between concurrent callers, with fine-grained locking: a
//! read/write lock over the registry's structure, and a lock of its own over
//! each queue's buffer. Publish and drain hold the registry only for reading,
//! so they run side by side on different queues; attach holds it for writing
//! for the instant of the insertion.
use vstd::prelude::*;
use vstd::rwlock::{RwLock, RwLockPredicate};

use crate::message::{copy_payload, Message};
use crate::topic::{parse_topic, topic_matches, topic_matches_spec, topic_segments, views_of};

verus! {

/// What a queue's buffer lock keeps true: every buffered message was
/// published on a topic that the queue's filter matches.
pub struct BufferInv {
    pub filter: Seq<Seq<char>>,
}

impl RwLockPredicate<Vec<Message>> for BufferInv {
    open spec fn inv(self, v: Vec<Message>) -> bool {
        forall|i: int|
            0 <= i < v@.len() ==> topic_matches_spec(self.filter, topic_segments(#[trigger] v@[i].topic@))
    }
}

/// One registered queue: its id, its filter, and its locked buffer.
pub struct Slot {
    id: String,
    filter: Vec<String>,
    buffer: RwLock<Vec<Message>, BufferInv>,
}

spec fn slot_wf(s: Slot) -> bool {
    s.buffer.pred() == (BufferInv { filter: views_of(s.filter@) })
}

/// What the registry lock keeps true: queue ids are unique, and each queue's
/// buffer lock guards the filter that the queue holds.
pub struct RegistryInv {}

impl RwLockPredicate<Vec<Slot>> for RegistryInv {
    closed spec fn inv(self, v: Vec<Slot>) -> bool {
        &&& forall|i: int, j: int|
            0 <= i < v@.len() && 0 <= j < v@.len() && i != j ==> v@[i].id@ != v@[j].id@
        &&& forall|i: int| 0 <= i < v@.len() ==> slot_wf(#[trigger] v@[i])
    }
}

/// A broker that any number of threads can call at once through `&self`.
pub struct SharedBroker {
    registry: RwLock<Vec<Slot>, RegistryInv>,
}

/// The position of the queue named `id` among `slots`, if there is one.
fn find_slot(slots: &Vec<Slot>, id: &String) -> (r: Option<usize>)
    ensures
        r is Some ==> r->0 < slots@.len() && slots@[r->0 as int].id@ == id@,
        r is None ==> forall|j: int| 0 <= j < slots@.len() ==> slots@[j].id@ != id@,
{
    let mut i: usize = 0;
    while i < slots.len()
        invariant
            i <= slots@.len(),
            forall|j: int| 0 <= j < i ==> slots@[j].id@ != id@,
        decreases slots@.len() - i,
    {
        if slots[i].id == *id {
            return Some(i);
        }
        i = i + 1;
    }
    None
}

impl SharedBroker {
    /// A shared broker with no queues.
    pub fn new() -> (r: SharedBroker) {
        let slots: Vec<Slot> = Vec::new();
        SharedBroker { registry: RwLock::new(slots, Ghost(RegistryInv {})) }
    }

    /// Binds queue `id` to the filter parsed from `topic`, with an empty
    /// buffer, replacing any queue of that id. Holds the registry for writing
    /// only while the slot is put in.
    pub fn attach_queue(&self, id: String, topic: String) {
        let segments = parse_topic(topic.as_str());
        let empty: Vec<Message> = Vec::new();
        let buffer = RwLock::new(empty, Ghost(BufferInv { filter: views_of(segments@) }));
        let slot = Slot { id, filter: segments, buffer };
        let (mut slots, handle) = self.registry.acquire_write();
        match find_slot(&slots, &slot.id) {
            Some(idx) => {
                slots.set(idx, slot);
            },
            None => {
                slots.push(slot);
            },
        }
        handle.release_write(slots);
    }

    /// Appends a copy of the message to the buffer of every queue whose
    /// filter matches `topic`. Holds the registry for reading, and each
    /// matching buffer only for its append.
    pub fn publish(&self, topic: &str, data: serde_json::Value) {
        let segments = parse_topic(topic);
        let read = self.registry.acquire_read();
        let slots = read.borrow();
        let mut i: usize = 0;
        while i < slots.len()
            invariant
                i <= slots@.len(),
                self.registry.inv(*slots),
                views_of(segments@) == topic_segments(topic@),
            decreases slots@.len() - i,
        {
            let slot = &slots[i];
            if topic_matches(slot.filter.as_slice(), segments.as_slice()) {
                let (mut msgs, h) = slot.buffer.acquire_write();
                let m = Message::new(topic.to_owned(), copy_payload(&data));
                msgs.push(m);
                h.release_write(msgs);
            }
            i = i + 1;
        }
        read.release_read();
    }

    /// Takes the buffered messages of queue `id` out, oldest first, leaving
    /// its buffer empty; an unknown id gives an empty list. Each message that
    /// comes out was published on a topic that the queue's filter matched.
    pub fn get_messages(&self, id: &str) -> (r: Vec<Message>) {
        let key = id.to_owned();
        let read = self.registry.acquire_read();
        let slots = read.borrow();
        let r = match find_slot(slots, &key) {
            Some(idx) => {
                let (msgs, h) = slots[idx].buffer.acquire_write();
                let empty: Vec<Message> = Vec::new();
                h.release_write(empty);
                msgs
            },
            None => Vec::new(),
        };
        read.release_read();
        r
    }
}

} // verus!
