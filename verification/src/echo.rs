//! The echo responder: answers every `Echo` request with an `EchoOk` carrying
//! the same string, and ignores `EchoOk` payloads it receives.

use vstd::prelude::*;

use crate::node::{Id, Node};
use crate::protocol::Init;

verus! {

/// The echo payloads.
pub enum EchoPayload {
    Echo { echo: String },
    EchoOk { echo: String },
}

/// The echo responder: identity, roster, message-id counter; no other state.
pub struct EchoNode {
    pub id: usize,
    pub node_id: String,
    pub node_ids: Vec<String>,
}

impl Id for EchoNode {
    open spec fn spec_node_id(&self) -> Seq<char> {
        self.node_id@
    }

    open spec fn spec_msg_id(&self) -> usize {
        self.id
    }

    open spec fn with_msg_id(self, m: usize) -> Self {
        EchoNode { id: m, ..self }
    }

    proof fn lemma_with_own_msg_id(&self) {
    }

    fn get_node_id(&self) -> (r: String) {
        self.node_id.clone()
    }

    fn get_msg_id(&self) -> (r: usize) {
        self.id
    }

    fn increment_msg_id(&mut self) {
        self.id = self.id + 1;
    }
}

impl Node<EchoPayload> for EchoNode {
    open spec fn is_init_state(init: Init, s: Self) -> bool {
        s == (EchoNode { id: 1, node_id: init.node_id, node_ids: init.node_ids })
    }

    open spec fn send_bound(&self) -> nat {
        0
    }

    open spec fn handle_post(
        pre: Self,
        input: EchoPayload,
        post: Self,
        rep: Option<EchoPayload>,
        sends: Seq<(String, EchoPayload)>,
    ) -> bool {
        &&& post == pre
        &&& sends.len() == 0
        &&& match input {
            EchoPayload::Echo { echo } => rep == Some(EchoPayload::EchoOk { echo }),
            EchoPayload::EchoOk { .. } => rep is None,
        }
    }

    fn from_init_data(init: Init) -> (s: Self) {
        EchoNode { id: 1, node_id: init.node_id, node_ids: init.node_ids }
    }

    fn handle(&mut self, input: EchoPayload) -> (r: (Option<EchoPayload>, Vec<
        (String, EchoPayload),
    >)) {
        match input {
            EchoPayload::Echo { echo } => (Some(EchoPayload::EchoOk { echo }), Vec::new()),
            EchoPayload::EchoOk { .. } => (None, Vec::new()),
        }
    }
}

} // verus!
