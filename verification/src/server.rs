//! A single-piece echo server that handles the handshake inline: one `step`
//! per envelope. The first envelope must carry `Init`; any other leading
//! payload is a fatal error before any output is produced. After the
//! handshake, `Init` is answered with `InitOk` and `Echo` with `EchoOk`,
//! each answer stamped with the next counter value; receiving an `InitOk` is
//! an error; a received `EchoOk` is ignored.

use vstd::prelude::*;

use crate::protocol::{Body, Message};

verus! {

/// The payloads of the single-piece echo server, handshake included.
pub enum ServerPayload {
    Echo { echo: String },
    EchoOk { echo: String },
    Init { node_id: String, node_ids: Vec<String> },
    InitOk,
}

/// The single-piece echo server fails fatally when its first envelope does
/// not carry `Init`, and whenever it is handed an `InitOk`.
pub enum ServerError {
    ExpectedInit,
    UnexpectedInitOk,
}

/// The single-piece echo server: the message-id counter, and whether the
/// initialization handshake has been completed.
pub struct EchoServer {
    pub id: usize,
    pub initialized: bool,
}

impl EchoServer {
    /// Processes one envelope. Until an `Init` has been handled, every other
    /// payload is a fatal error and nothing is produced. `Init` and, once
    /// initialized, `Echo` produce a reply envelope with destination and
    /// source swapped, the current counter as its message id, and the input's
    /// message id as its correlation token, and advance the counter by one;
    /// an incoming `EchoOk` produces nothing; an incoming `InitOk` is an
    /// error and changes nothing.
    pub fn step(&mut self, input: Message<ServerPayload>) -> (r: Result<
        Option<Message<ServerPayload>>,
        ServerError,
    >)
        requires
            input.body.payload is Init ==> old(self).id < usize::MAX,
            input.body.payload is Echo && old(self).initialized ==> old(self).id < usize::MAX,
        ensures
            match input.body.payload {
                ServerPayload::Init { .. } => ({
                    &&& r matches Ok(Some(reply))
                    &&& reply.src == input.dest
                    &&& reply.dest == input.src
                    &&& reply.body.msg_id == Some(old(self).id)
                    &&& reply.body.in_reply_to == input.body.msg_id
                    &&& reply.body.payload is InitOk
                    &&& final(self).id == old(self).id + 1
                    &&& final(self).initialized
                }),
                ServerPayload::Echo { echo } => if old(self).initialized {
                    &&& r matches Ok(Some(reply))
                    &&& reply.src == input.dest
                    &&& reply.dest == input.src
                    &&& reply.body.msg_id == Some(old(self).id)
                    &&& reply.body.in_reply_to == input.body.msg_id
                    &&& reply.body.payload == (ServerPayload::EchoOk { echo })
                    &&& final(self).id == old(self).id + 1
                    &&& final(self).initialized
                } else {
                    &&& r matches Err(e) && e is ExpectedInit
                    &&& *final(self) == *old(self)
                },
                ServerPayload::InitOk => ({
                    &&& r matches Err(e) && (if old(self).initialized {
                        e is UnexpectedInitOk
                    } else {
                        e is ExpectedInit
                    })
                    &&& *final(self) == *old(self)
                }),
                ServerPayload::EchoOk { .. } => if old(self).initialized {
                    &&& r matches Ok(o) && o is None
                    &&& *final(self) == *old(self)
                } else {
                    &&& r matches Err(e) && e is ExpectedInit
                    &&& *final(self) == *old(self)
                },
            },
    {
        let Message { src, dest, body } = input;
        let Body { msg_id, in_reply_to: _, payload } = body;
        match payload {
            ServerPayload::Init { .. } => {
                let reply = Message {
                    src: dest,
                    dest: src,
                    body: Body {
                        msg_id: Some(self.id),
                        in_reply_to: msg_id,
                        payload: ServerPayload::InitOk,
                    },
                };
                self.id = self.id + 1;
                self.initialized = true;
                Ok(Some(reply))
            },
            ServerPayload::Echo { echo } => {
                if !self.initialized {
                    return Err(ServerError::ExpectedInit);
                }
                let reply = Message {
                    src: dest,
                    dest: src,
                    body: Body {
                        msg_id: Some(self.id),
                        in_reply_to: msg_id,
                        payload: ServerPayload::EchoOk { echo },
                    },
                };
                self.id = self.id + 1;
                Ok(Some(reply))
            },
            ServerPayload::InitOk => {
                if !self.initialized {
                    Err(ServerError::ExpectedInit)
                } else {
                    Err(ServerError::UnexpectedInitOk)
                }
            },
            ServerPayload::EchoOk { .. } => {
                if !self.initialized {
                    Err(ServerError::ExpectedInit)
                } else {
                    Ok(None)
                }
            },
        }
    }
}

} // verus!
