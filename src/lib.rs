//! A node runtime for distributed-systems workloads: message envelopes,
//! a message-id allocator, a pending-RPC table, an anti-entropy gossip layer
//! over a replicated document, and the workload state machines built on it.

pub mod broadcast;
pub mod codec;
pub mod context;
pub mod crdt;
pub mod echo;
pub mod error;
pub mod g_counter;
pub mod gossip;
pub mod kafka;
pub mod message;
pub mod rpc;
pub mod runtime;
pub mod unique_ids;

pub use context::Context;
pub use message::{Body, Event, Init, Message};
