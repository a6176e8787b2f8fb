//! A runtime for nodes of a line-delimited JSON message protocol used to
//! exercise distributed algorithms: envelope framing, the initialization
//! handshake, message-id assignment, the dispatch loop, and node state
//! machines built on top of it (echo, unique-id generation, and a
//! deduplicating flood broadcast).

pub mod protocol;
pub mod node;
pub mod echo;
pub mod unique_ids;
pub mod broadcast;
pub mod server;
