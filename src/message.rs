//! Messages: a topic string as published and an opaque JSON payload.
use vstd::prelude::*;

verus! {

#[verifier::external_type_specification]
#[verifier::external_body]
pub struct ExValue(serde_json::Value);

/// Relies on the `Clone` that serde_json derives for `Value`: a deep copy,
/// the same value as the original.
#[verifier::external_body]
pub(crate) fn copy_payload(v: &serde_json::Value) -> (r: serde_json::Value)
    ensures
        r == *v,
{
    v.clone()
}

/// What a message is, as contracts speak of it.
pub struct MessageModel {
    pub topic: Seq<char>,
    pub data: serde_json::Value,
}

/// One published message as a queue holds it: the topic exactly as it was
/// published, and the payload, which is never looked into.
pub struct Message {
    pub topic: String,
    pub data: serde_json::Value,
}

impl View for Message {
    type V = MessageModel;

    open spec fn view(&self) -> MessageModel {
        MessageModel { topic: self.topic@, data: self.data }
    }
}

/// The models of a list of messages.
pub open spec fn message_models(v: Seq<Message>) -> Seq<MessageModel> {
    v.map_values(|m: Message| m@)
}

impl Message {
    pub fn new(topic: String, data: serde_json::Value) -> (r: Message)
        ensures
            r@ == (MessageModel { topic: topic@, data }),
    {
        Message { topic, data }
    }

    /// An independent copy of this message.
    pub fn duplicate(&self) -> (r: Message)
        ensures
            r@ == self@,
    {
        Message { topic: self.topic.clone(), data: copy_payload(&self.data) }
    }
}

} // verus!
