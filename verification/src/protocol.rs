//! The wire data model: envelopes, bodies, the handshake payloads, and the
//! error raised when the handshake is violated.

use vstd::prelude::*;

verus! {

/// Message metadata: the sender-local id, the correlation token of the
/// message being answered, and the typed payload.
pub struct Body<P> {
    pub msg_id: Option<usize>,
    pub in_reply_to: Option<usize>,
    pub payload: P,
}

/// One transported unit: source, destination, and a body.
/// A reply is always a freshly built `Message`, never a mutated one.
pub struct Message<P> {
    pub src: String,
    pub dest: String,
    pub body: Body<P>,
}

/// The initialization data: this node's identity and the cluster roster.
pub struct Init {
    pub node_id: String,
    pub node_ids: Vec<String>,
}

/// The handshake payloads: the initialization request and its acknowledgment.
pub enum InitPayload {
    Init(Init),
    InitOk,
}

/// The handshake fails when the first envelope does not carry `Init`;
/// no node identity exists then and the process must stop.
pub enum HandshakeError {
    ExpectedInit,
}

/// String equality, stated over the character views.
pub fn str_eq(a: &String, b: &String) -> (r: bool)
    ensures
        r == (a@ == b@),
{
    a.eq(b)
}

} // verus!
