//! An in-process, topic-based publish/subscribe broker. Queues are attached
//! under an id with a topic filter; a publish appends the message to every
//! queue whose filter is a prefix of the message's topic; a drain takes a
//! queue's messages out, oldest first.
//!
//! `broker::Broker` is the broker owned by one caller, with exact contracts
//! over a registry model; `laws` relates its operations. `shared::SharedBroker`
//! is the same broker for concurrent callers, with a lock over the registry and
//! one over each queue's buffer.
pub mod broker;
pub mod laws;
pub mod message;
pub mod shared;
pub mod smoke;
pub mod stats;
pub mod topic;
