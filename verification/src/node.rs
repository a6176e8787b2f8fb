//! The generic node runtime: the identity/counter contract, the node state
//! machine contract, the initialization handshake, and the dispatch step that
//! stamps every outgoing envelope with a fresh message id.

use vstd::prelude::*;

use crate::protocol::{Body, HandshakeError, Init, InitPayload, Message};

verus! {

/// Identity and message-id bookkeeping of a node.
///
/// `with_msg_id` is the mathematical update of the counter alone; it lets the
/// dispatch step say exactly how the state after several id assignments
/// relates to the state before.
pub trait Id: Sized {
    /// The node identity, as assigned by the handshake.
    spec fn spec_node_id(&self) -> Seq<char>;

    /// The current value of the message-id counter.
    spec fn spec_msg_id(&self) -> usize;

    /// This state with the counter replaced by `m` and everything else kept.
    spec fn with_msg_id(self, m: usize) -> Self;

    /// Replacing the counter by its own value changes nothing.
    proof fn lemma_with_own_msg_id(&self)
        ensures
            self.with_msg_id(self.spec_msg_id()) == *self,
    ;

    fn get_node_id(&self) -> (r: String)
        ensures
            r@ == self.spec_node_id(),
    ;

    fn get_msg_id(&self) -> (r: usize)
        ensures
            r == self.spec_msg_id(),
    ;

    fn increment_msg_id(&mut self)
        requires
            old(self).spec_msg_id() < usize::MAX,
        ensures
            *final(self) == old(self).with_msg_id((old(self).spec_msg_id() + 1) as usize),
            final(self).spec_msg_id() == old(self).spec_msg_id() + 1,
            final(self).spec_node_id() == old(self).spec_node_id(),
            forall|m: usize| final(self).with_msg_id(m) == old(self).with_msg_id(m),
    ;
}

/// A node state machine: how it is built from the `Init` data, and how it
/// handles one payload, yielding an optional reply payload together with the
/// peer-directed payloads it wants sent (destination, payload).
pub trait Node<P>: Id {
    /// What the initial state built from the `Init` data looks like.
    spec fn is_init_state(init: Init, s: Self) -> bool;

    /// An upper bound on how many peer sends one `handle` call may request;
    /// the dispatch step uses it to bound the counter growth.
    spec fn send_bound(&self) -> nat;

    /// The exact transition relation of this node: from state `pre` and
    /// payload `input` to state `post`, reply payload `rep` and peer sends.
    spec fn handle_post(
        pre: Self,
        input: P,
        post: Self,
        rep: Option<P>,
        sends: Seq<(String, P)>,
    ) -> bool;

    fn from_init_data(init: Init) -> (s: Self)
        ensures
            Self::is_init_state(init, s),
    ;

    fn handle(&mut self, input: P) -> (r: (Option<P>, Vec<(String, P)>))
        ensures
            Self::handle_post(*old(self), input, *final(self), r.0, r.1@),
            final(self).spec_msg_id() == old(self).spec_msg_id(),
            final(self).spec_node_id() == old(self).spec_node_id(),
            r.1@.len() <= old(self).send_bound(),
    ;
}

/// The acknowledgment that the handshake owes: destination and source swapped,
/// own message id fixed at zero, correlated to the initialization envelope.
pub open spec fn init_ack<P>(input: Message<InitPayload>, ack: Message<P>) -> bool {
    &&& ack.src == input.dest
    &&& ack.dest == input.src
    &&& ack.body.msg_id == Some(0usize)
    &&& ack.body.in_reply_to == input.body.msg_id
}

/// Consumes the first envelope of the stream. If and only if it carries
/// `Init`, the node state is built from the initialization data and the
/// `InitOk` acknowledgment envelope is produced; the acknowledgment must be
/// written before any other output. Any other leading payload is fatal.
pub fn from_init<P, S: Node<P>>(input: Message<InitPayload>) -> (r: Result<
    (S, Message<InitPayload>),
    HandshakeError,
>)
    ensures
        r is Ok <==> input.body.payload is Init,
        r matches Ok((s, ack)) ==> {
            &&& input.body.payload matches InitPayload::Init(init) && S::is_init_state(init, s)
            &&& init_ack(input, ack)
            &&& ack.body.payload is InitOk
        },
        r matches Err(e) ==> e is ExpectedInit,
{
    let Message { src, dest, body } = input;
    let Body { msg_id, in_reply_to: _, payload } = body;
    match payload {
        InitPayload::Init(init) => {
            let state = S::from_init_data(init);
            let ack = Message {
                src: dest,
                dest: src,
                body: Body { msg_id: Some(0), in_reply_to: msg_id, payload: InitPayload::InitOk },
            };
            Ok((state, ack))
        },
        InitPayload::InitOk => Err(HandshakeError::ExpectedInit),
    }
}

/// How one dispatch step relates its inputs to its outputs, for the handler
/// outcome `(mid, rep, sends)`: the peer sends come first, stamped with
/// consecutive fresh ids and no correlation token; the reply, if any, comes
/// last, with source and destination swapped from the input and correlated to
/// the input's message id; the state advances by exactly one counter increment
/// per emitted envelope.
pub open spec fn step_shape<P, S: Node<P>>(
    pre: S,
    input: Message<P>,
    post: S,
    out: Seq<Message<P>>,
    mid: S,
    rep: Option<P>,
    sends: Seq<(String, P)>,
) -> bool {
    &&& S::handle_post(pre, input.body.payload, mid, rep, sends)
    &&& mid.spec_msg_id() == pre.spec_msg_id()
    &&& out.len() == sends.len() + (if rep is Some { 1int } else { 0int })
    &&& forall|i: int| 0 <= i < sends.len() ==> {
        &&& (#[trigger] out[i]).src@ == pre.spec_node_id()
        &&& out[i].dest == sends[i].0
        &&& out[i].body.msg_id == Some((pre.spec_msg_id() + i) as usize)
        &&& out[i].body.in_reply_to is None
        &&& out[i].body.payload == sends[i].1
    }
    &&& rep matches Some(p) ==> {
        let k = sends.len() as int;
        &&& out[k].src == input.dest
        &&& out[k].dest == input.src
        &&& out[k].body.msg_id == Some((pre.spec_msg_id() + k) as usize)
        &&& out[k].body.in_reply_to == input.body.msg_id
        &&& out[k].body.payload == p
    }
    &&& post == mid.with_msg_id((pre.spec_msg_id() + out.len()) as usize)
}

/// One dispatch step happened: some handler outcome explains the outputs.
pub open spec fn step_post<P, S: Node<P>>(
    pre: S,
    input: Message<P>,
    post: S,
    out: Seq<Message<P>>,
) -> bool {
    exists|mid: S, rep: Option<P>, sends: Seq<(String, P)>|
        step_shape(pre, input, post, out, mid, rep, sends)
}

/// Law: every envelope of a later dispatch step carries a strictly greater
/// message id than every envelope of an earlier step of the same node: one
/// step assigns the consecutive ids from the counter it started at, and the
/// counter leaves each step at the first unassigned id.
pub proof fn lemma_step_ids_increase<P>(
    c0: nat,
    out0: Seq<Message<P>>,
    c1: nat,
    out1: Seq<Message<P>>,
)
    requires
        forall|i: int| 0 <= i < out0.len() ==> (#[trigger] out0[i]).body.msg_id == Some(
            (c0 + i) as usize,
        ),
        forall|j: int| 0 <= j < out1.len() ==> (#[trigger] out1[j]).body.msg_id == Some(
            (c1 + j) as usize,
        ),
        c0 + out0.len() <= c1,
        c1 + out1.len() <= usize::MAX,
    ensures
        forall|i: int, j: int|
            0 <= i < out0.len() && 0 <= j < out1.len() ==> ((#[trigger] out0[i]).body.msg_id
                matches Some(a) && ((#[trigger] out1[j]).body.msg_id matches Some(b) && a < b)),
{
}

/// One cycle of the dispatch loop: handle the payload, then emit the
/// peer-directed envelopes and, if the handler answered, the reply envelope.
/// Every emitted envelope carries a fresh, strictly increasing message id,
/// and the counter grows by exactly one per emitted envelope.
pub fn reply<P, S: Node<P>>(state: &mut S, input: Message<P>) -> (out: Vec<Message<P>>)
    requires
        old(state).spec_msg_id() + old(state).send_bound() + 1 <= usize::MAX,
    ensures
        step_post(*old(state), input, *final(state), out@),
        final(state).spec_msg_id() == old(state).spec_msg_id() + out@.len(),
        final(state).spec_node_id() == old(state).spec_node_id(),
        forall|i: int| 0 <= i < out@.len() ==> (#[trigger] out@[i]).body.msg_id == Some(
            (old(state).spec_msg_id() + i) as usize,
        ),
        forall|i: int| 0 <= i < out@.len() ==> {
            ||| (#[trigger] out@[i]).body.in_reply_to is None
            ||| out@[i].body.in_reply_to == input.body.msg_id
        },
{
    let ghost pre = *old(state);
    let Message { src, dest, body } = input;
    let Body { msg_id: input_msg_id, in_reply_to: _, payload } = body;
    let (rep, mut sends) = state.handle(payload);
    let ghost mid = *state;
    let ghost rep0 = rep;
    let ghost sends0 = sends@;
    let node_id = state.get_node_id();
    let mut out: Vec<Message<P>> = Vec::new();
    proof {
        mid.lemma_with_own_msg_id();
    }
    while sends.len() > 0
        invariant
            out@.len() + sends@.len() == sends0.len(),
            sends@ == sends0.subrange(out@.len() as int, sends0.len() as int),
            sends0.len() <= pre.send_bound(),
            pre.spec_msg_id() + pre.send_bound() + 1 <= usize::MAX,
            node_id@ == pre.spec_node_id(),
            *state == mid.with_msg_id((pre.spec_msg_id() + out@.len()) as usize),
            forall|m: usize| state.with_msg_id(m) == mid.with_msg_id(m),
            state.spec_msg_id() == pre.spec_msg_id() + out@.len(),
            state.spec_node_id() == pre.spec_node_id(),
            forall|i: int| 0 <= i < out@.len() ==> {
                &&& (#[trigger] out@[i]).src@ == pre.spec_node_id()
                &&& out@[i].dest == sends0[i].0
                &&& out@[i].body.msg_id == Some((pre.spec_msg_id() + i) as usize)
                &&& out@[i].body.in_reply_to is None
                &&& out@[i].body.payload == sends0[i].1
            },
        decreases sends@.len(),
    {
        let (send_dest, send_payload) = sends.remove(0);
        let env = Message {
            src: node_id.clone(),
            dest: send_dest,
            body: Body {
                msg_id: Some(state.get_msg_id()),
                in_reply_to: None,
                payload: send_payload,
            },
        };
        out.push(env);
        state.increment_msg_id();
    }
    if let Some(p) = rep {
        let env = Message {
            src: dest,
            dest: src,
            body: Body {
                msg_id: Some(state.get_msg_id()),
                in_reply_to: input_msg_id,
                payload: p,
            },
        };
        out.push(env);
        state.increment_msg_id();
    }
    proof {
        assert(step_shape(pre, input, *state, out@, mid, rep0, sends0));
    }
    out
}

} // verus!
