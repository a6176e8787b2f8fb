//! The broadcast propagation engine: deduplicated, topology-bounded flood
//! broadcast plus read-back of the accumulated values.
//!
//! A `Broadcast` delivery of an unseen value inserts it into the memory and
//! re-floods it to every neighbor other than the node itself; a redundant
//! delivery is acknowledged and nothing else happens. `Read` answers with a
//! snapshot of the memory. `Topology` records this node's neighbor list; until
//! one is recorded, the neighbor set falls back to all other known peers.

use vstd::prelude::*;

use crate::node::{step_post, step_shape, Id, Node};
use crate::protocol::{str_eq, Init, Message};

verus! {

/// The adjacency mapping supplied by a `Topology` payload: each entry maps a
/// node identity to its neighbor identities.
pub struct Topology {
    pub nodes: Vec<(String, Vec<String>)>,
}

/// The broadcast payloads.
pub enum BroadcastPayload {
    Broadcast { message: i32 },
    BroadcastOk {},
    Read {},
    ReadOk { messages: Vec<i32> },
    Topology { topology: Topology },
    TopologyOk {},
}

/// The broadcast node: identity, roster, message-id counter, the set of
/// values seen so far (a duplicate-free vector), and the recorded neighbor
/// list, if a topology has been supplied.
pub struct BroadcastNode {
    pub id: usize,
    pub node_id: String,
    pub node_ids: Vec<String>,
    pub memory: Vec<i32>,
    pub neighbors: Option<Vec<String>>,
}

/// The neighbor list of `key` in the adjacency entries: the first entry whose
/// identity matches, if any.
pub open spec fn lookup(entries: Seq<(String, Vec<String>)>, key: Seq<char>) -> Option<Seq<String>>
    decreases entries.len(),
{
    if entries.len() == 0 {
        None
    } else if entries[0].0@ == key {
        Some(entries[0].1@)
    } else {
        lookup(entries.drop_first(), key)
    }
}

/// The peer-directed flood for `message`: one `Broadcast` per listed node,
/// in list order, excluding only the node itself.
pub open spec fn fanout(nodes: Seq<String>, me: Seq<char>, message: i32) -> Seq<
    (String, BroadcastPayload),
>
    decreases nodes.len(),
{
    if nodes.len() == 0 {
        Seq::empty()
    } else {
        let rest = fanout(nodes.drop_first(), me, message);
        if nodes[0]@ == me {
            rest
        } else {
            seq![(nodes[0], BroadcastPayload::Broadcast { message })] + rest
        }
    }
}

impl BroadcastNode {
    /// The set of values seen so far.
    pub open spec fn mem_set(self) -> Set<i32> {
        self.memory@.to_set()
    }

    /// The fan-out list: the recorded neighbors if a topology was supplied,
    /// otherwise all known peers.
    pub open spec fn neighbor_list(self) -> Seq<String> {
        match self.neighbors {
            Some(ns) => ns@,
            None => self.node_ids@,
        }
    }

    /// The memory holds each seen value exactly once.
    pub open spec fn wf(self) -> bool {
        self.memory@.no_duplicates()
    }
}

/// The exact transition relation of the broadcast node.
pub open spec fn broadcast_post(
    pre: BroadcastNode,
    input: BroadcastPayload,
    post: BroadcastNode,
    rep: Option<BroadcastPayload>,
    sends: Seq<(String, BroadcastPayload)>,
) -> bool {
    match input {
        BroadcastPayload::Broadcast { message } => {
            &&& rep == Some(BroadcastPayload::BroadcastOk {  })
            &&& if pre.memory@.contains(message) {
                post == pre && sends.len() == 0
            } else {
                &&& post.memory@ == pre.memory@.push(message)
                &&& post.id == pre.id
                &&& post.node_id == pre.node_id
                &&& post.node_ids == pre.node_ids
                &&& post.neighbors == pre.neighbors
                &&& sends == fanout(pre.neighbor_list(), pre.node_id@, message)
            }
        },
        BroadcastPayload::Read {  } => {
            &&& post == pre
            &&& sends.len() == 0
            &&& rep matches Some(BroadcastPayload::ReadOk { messages }) && messages@
                == pre.memory@
        },
        BroadcastPayload::Topology { topology } => {
            &&& rep == Some(BroadcastPayload::TopologyOk {  })
            &&& sends.len() == 0
            &&& post.id == pre.id
            &&& post.node_id == pre.node_id
            &&& post.node_ids == pre.node_ids
            &&& post.memory == pre.memory
            &&& match lookup(topology.nodes@, pre.node_id@) {
                Some(ns) => post.neighbors matches Some(v) && v@ == ns,
                None => post.neighbors == pre.neighbors,
            }
        },
        BroadcastPayload::BroadcastOk {  } | BroadcastPayload::ReadOk { .. }
            | BroadcastPayload::TopologyOk {  } => {
            &&& post == pre
            &&& rep is None
            &&& sends.len() == 0
        },
    }
}

/// Law: delivering the same value twice inserts it exactly once. Both
/// deliveries are acknowledged; the first takes the memory set to its old
/// value plus the delivered one; the second changes nothing and floods
/// nothing.
pub proof fn lemma_broadcast_idempotent(
    pre: BroadcastNode,
    v: i32,
    s1: BroadcastNode,
    r1: Option<BroadcastPayload>,
    d1: Seq<(String, BroadcastPayload)>,
    s2: BroadcastNode,
    r2: Option<BroadcastPayload>,
    d2: Seq<(String, BroadcastPayload)>,
)
    requires
        broadcast_post(pre, BroadcastPayload::Broadcast { message: v }, s1, r1, d1),
        broadcast_post(s1, BroadcastPayload::Broadcast { message: v }, s2, r2, d2),
    ensures
        r1 == Some(BroadcastPayload::BroadcastOk {  }),
        r2 == Some(BroadcastPayload::BroadcastOk {  }),
        s1.mem_set() == pre.mem_set().insert(v),
        s2 == s1,
        d2.len() == 0,
{
    if pre.memory@.contains(v) {
        assert(pre.mem_set().contains(v));
        assert(pre.mem_set().insert(v) =~= pre.mem_set());
    } else {
        pre.memory@.lemma_push_to_set_commute(v);
        assert(s1.mem_set() =~= pre.mem_set().insert(v));
        assert(s1.memory@[pre.memory@.len() as int] == v);
        assert(s1.memory@.contains(v));
    }
}

/// Law: a redundant delivery is a no-op besides the acknowledgment: when the
/// value is already in memory, the node is acknowledged and left unchanged,
/// and no peer-directed send is made.
pub proof fn lemma_redundant_delivery(
    pre: BroadcastNode,
    v: i32,
    post: BroadcastNode,
    rep: Option<BroadcastPayload>,
    sends: Seq<(String, BroadcastPayload)>,
)
    requires
        pre.memory@.contains(v),
        broadcast_post(pre, BroadcastPayload::Broadcast { message: v }, post, rep, sends),
    ensures
        rep == Some(BroadcastPayload::BroadcastOk {  }),
        post == pre,
        sends.len() == 0,
{
}

/// The memory set after delivering the values of `vals`, in order, starting
/// from the set `m`.
pub open spec fn mem_after(m: Set<i32>, vals: Seq<i32>) -> Set<i32>
    decreases vals.len(),
{
    if vals.len() == 0 {
        m
    } else {
        mem_after(m.insert(vals[0]), vals.drop_first())
    }
}

/// Law: after any sequence of deliveries the memory set is the old set united
/// with the set of the delivered values — only which values were delivered
/// matters, not how often or in what order.
pub proof fn lemma_mem_after_is_union(m: Set<i32>, vals: Seq<i32>)
    ensures
        mem_after(m, vals) == m + vals.to_set(),
    decreases vals.len(),
{
    if vals.len() == 0 {
        assert(m + vals.to_set() =~= m);
    } else {
        lemma_mem_after_is_union(m.insert(vals[0]), vals.drop_first());
        assert(m.insert(vals[0]) + vals.drop_first().to_set() =~= m + vals.to_set()) by {
            assert forall|x: i32| vals.drop_first().contains(x) implies vals.contains(x) by {
                let j = choose|j: int|
                    0 <= j < vals.drop_first().len() && vals.drop_first()[j] == x;
                assert(vals[j + 1] == x);
            }
            assert(vals.contains(vals[0]));
            assert forall|x: i32| vals.contains(x) && x != vals[0] implies vals.drop_first().contains(
                x,
            ) by {
                let j = choose|j: int| 0 <= j < vals.len() && vals[j] == x;
                assert(vals.drop_first()[j - 1] == x);
            }
        }
    }
}

/// Law: two delivery orders of the same set of values leave the same memory.
pub proof fn lemma_delivery_order_irrelevant(m: Set<i32>, vals1: Seq<i32>, vals2: Seq<i32>)
    requires
        vals1.to_set() == vals2.to_set(),
    ensures
        mem_after(m, vals1) == mem_after(m, vals2),
{
    lemma_mem_after_is_union(m, vals1);
    lemma_mem_after_is_union(m, vals2);
}

/// Law: one acknowledged `Broadcast` delivery takes the memory set to exactly
/// its old value plus the delivered value.
pub proof fn lemma_broadcast_step_memory(
    pre: BroadcastNode,
    v: i32,
    post: BroadcastNode,
    rep: Option<BroadcastPayload>,
    sends: Seq<(String, BroadcastPayload)>,
)
    requires
        broadcast_post(pre, BroadcastPayload::Broadcast { message: v }, post, rep, sends),
    ensures
        post.mem_set() == pre.mem_set().insert(v),
        post.mem_set() == mem_after(pre.mem_set(), seq![v]),
        rep == Some(BroadcastPayload::BroadcastOk {  }),
{
    assert(seq![v].drop_first() =~= Seq::<i32>::empty());
    assert(mem_after(pre.mem_set().insert(v), seq![v].drop_first()) == pre.mem_set().insert(v));
    assert(mem_after(pre.mem_set(), seq![v]) == pre.mem_set().insert(v));
    if pre.memory@.contains(v) {
        assert(pre.mem_set().contains(v));
        assert(pre.mem_set().insert(v) =~= pre.mem_set());
    } else {
        pre.memory@.lemma_push_to_set_commute(v);
        assert(post.mem_set() =~= pre.mem_set().insert(v));
    }
}

/// Whether delivering the values of `vals`, in order, can take the node from
/// `pre` to `post`: each delivery is one handled `Broadcast` payload.
pub open spec fn delivers(pre: BroadcastNode, vals: Seq<i32>, post: BroadcastNode) -> bool
    decreases vals.len(),
{
    if vals.len() == 0 {
        post == pre
    } else {
        exists|
            mid: BroadcastNode,
            rep: Option<BroadcastPayload>,
            sends: Seq<(String, BroadcastPayload)>,
        |
            broadcast_post(pre, BroadcastPayload::Broadcast { message: vals[0] }, mid, rep, sends)
                && delivers(mid, vals.drop_first(), post)
    }
}

/// Law: after delivering any sequence of values the memory set is the old set
/// united with the set of the delivered values; two orders of the same values
/// therefore leave the same memory, which is what a subsequent `Read` answers.
pub proof fn lemma_delivered_memory(pre: BroadcastNode, vals: Seq<i32>, post: BroadcastNode)
    requires
        delivers(pre, vals, post),
    ensures
        post.mem_set() == pre.mem_set() + vals.to_set(),
    decreases vals.len(),
{
    if vals.len() == 0 {
        assert(pre.mem_set() + vals.to_set() =~= pre.mem_set());
    } else {
        let (mid, rep, sends): (
            BroadcastNode,
            Option<BroadcastPayload>,
            Seq<(String, BroadcastPayload)>,
        ) = choose|
            mid: BroadcastNode,
            rep: Option<BroadcastPayload>,
            sends: Seq<(String, BroadcastPayload)>,
        |
            broadcast_post(pre, BroadcastPayload::Broadcast { message: vals[0] }, mid, rep, sends)
                && delivers(mid, vals.drop_first(), post);
        lemma_broadcast_step_memory(pre, vals[0], mid, rep, sends);
        lemma_delivered_memory(mid, vals.drop_first(), post);
        lemma_mem_after_is_union(pre.mem_set(), vals);
        lemma_mem_after_is_union(pre.mem_set().insert(vals[0]), vals.drop_first());
    }
}

/// Law: `Read` answers with a snapshot holding exactly the seen set, each
/// value once, and changes nothing.
pub proof fn lemma_read_returns_memory(
    pre: BroadcastNode,
    post: BroadcastNode,
    rep: Option<BroadcastPayload>,
    sends: Seq<(String, BroadcastPayload)>,
)
    requires
        pre.wf(),
        broadcast_post(pre, BroadcastPayload::Read {  }, post, rep, sends),
    ensures
        rep matches Some(BroadcastPayload::ReadOk { messages }) && messages@.to_set()
            == pre.mem_set() && messages@.no_duplicates(),
        post == pre,
        sends.len() == 0,
{
}

/// Law: on a freshly initialized node, after delivering any values in any
/// order, possibly with duplicates, `Read` answers with exactly the set of
/// the distinct delivered values, and changes nothing.
pub proof fn lemma_read_after_deliveries(
    init: Init,
    s0: BroadcastNode,
    vals: Seq<i32>,
    s1: BroadcastNode,
    post: BroadcastNode,
    rep: Option<BroadcastPayload>,
    sends: Seq<(String, BroadcastPayload)>,
)
    requires
        <BroadcastNode as Node<BroadcastPayload>>::is_init_state(init, s0),
        delivers(s0, vals, s1),
        broadcast_post(s1, BroadcastPayload::Read {  }, post, rep, sends),
    ensures
        rep matches Some(BroadcastPayload::ReadOk { messages }) && messages@.to_set()
            == vals.to_set(),
        post == s1,
        sends.len() == 0,
{
    lemma_delivered_memory(s0, vals, s1);
    assert(s0.mem_set() =~= Set::<i32>::empty());
    assert(s0.mem_set() + vals.to_set() =~= vals.to_set());
}

/// Law: at the dispatch level, one processed `Broadcast` envelope takes the
/// memory set to exactly its old value plus the delivered value, whatever
/// else the step emitted.
pub proof fn lemma_dispatch_broadcast_memory(
    pre: BroadcastNode,
    input: Message<BroadcastPayload>,
    post: BroadcastNode,
    out: Seq<Message<BroadcastPayload>>,
    v: i32,
)
    requires
        step_post::<BroadcastPayload, BroadcastNode>(pre, input, post, out),
        input.body.payload == (BroadcastPayload::Broadcast { message: v }),
    ensures
        post.mem_set() == pre.mem_set().insert(v),
{
    let (mid, rep, sends): (
        BroadcastNode,
        Option<BroadcastPayload>,
        Seq<(String, BroadcastPayload)>,
    ) = choose|
        mid: BroadcastNode,
        rep: Option<BroadcastPayload>,
        sends: Seq<(String, BroadcastPayload)>,
    | step_shape(pre, input, post, out, mid, rep, sends);
    lemma_broadcast_step_memory(pre, v, mid, rep, sends);
}

/// Law: every handled payload preserves well-formedness: the memory keeps
/// holding each seen value exactly once.
pub proof fn lemma_handle_preserves_wf(
    pre: BroadcastNode,
    input: BroadcastPayload,
    post: BroadcastNode,
    rep: Option<BroadcastPayload>,
    sends: Seq<(String, BroadcastPayload)>,
)
    requires
        pre.wf(),
        broadcast_post(pre, input, post, rep, sends),
    ensures
        post.wf(),
{
    match input {
        BroadcastPayload::Broadcast { message } => {
            if !pre.memory@.contains(message) {
                assert forall|i: int, j: int|
                    0 <= i < post.memory@.len() && 0 <= j < post.memory@.len() && i
                        != j implies post.memory@[i] != post.memory@[j] by {
                    if i == pre.memory@.len() as int {
                        pre.memory@.lemma_index_contains(j);
                    } else if j == pre.memory@.len() as int {
                        pre.memory@.lemma_index_contains(i);
                    }
                }
            }
        },
        _ => {},
    }
}

fn contains_value(v: &Vec<i32>, x: i32) -> (r: bool)
    ensures
        r == v@.contains(x),
{
    let mut i: usize = 0;
    while i < v.len()
        invariant
            i <= v@.len(),
            forall|j: int| 0 <= j < i ==> v@[j] != x,
        decreases v@.len() - i,
    {
        if v[i] == x {
            proof {
                assert(v@.contains(x)) by { assert(v@[i as int] == x) }
            }
            return true;
        }
        i = i + 1;
    }
    false
}

fn clone_values(v: &Vec<i32>) -> (r: Vec<i32>)
    ensures
        r@ == v@,
{
    let mut r: Vec<i32> = Vec::new();
    let mut i: usize = 0;
    while i < v.len()
        invariant
            i <= v@.len(),
            r@ =~= v@.subrange(0, i as int),
        decreases v@.len() - i,
    {
        r.push(v[i]);
        i = i + 1;
    }
    proof {
        assert(v@.subrange(0, v@.len() as int) =~= v@);
    }
    r
}

fn clone_strings(v: &Vec<String>) -> (r: Vec<String>)
    ensures
        r@ == v@,
{
    let mut r: Vec<String> = Vec::new();
    let mut i: usize = 0;
    while i < v.len()
        invariant
            i <= v@.len(),
            r@ =~= v@.subrange(0, i as int),
        decreases v@.len() - i,
    {
        let s = v[i].clone();
        r.push(s);
        i = i + 1;
    }
    proof {
        assert(v@.subrange(0, v@.len() as int) =~= v@);
    }
    r
}

fn lookup_neighbors(entries: &Vec<(String, Vec<String>)>, key: &String) -> (r: Option<Vec<String>>)
    ensures
        match lookup(entries@, key@) {
            Some(ns) => r matches Some(v) && v@ == ns,
            None => r is None,
        },
{
    let mut i: usize = 0;
    proof {
        assert(entries@.skip(0) =~= entries@);
    }
    while i < entries.len()
        invariant
            i <= entries@.len(),
            lookup(entries@, key@) == lookup(entries@.skip(i as int), key@),
        decreases entries@.len() - i,
    {
        proof {
            assert(entries@.skip(i as int)[0] == entries@[i as int]);
            assert(entries@.skip(i as int).drop_first() =~= entries@.skip(i as int + 1));
        }
        let e = &entries[i];
        if str_eq(&e.0, key) {
            return Some(clone_strings(&e.1));
        }
        i = i + 1;
    }
    None
}

proof fn lemma_fanout_snoc(nodes: Seq<String>, x: String, me: Seq<char>, message: i32)
    ensures
        fanout(nodes.push(x), me, message) == fanout(nodes, me, message) + (if x@ == me {
            Seq::<(String, BroadcastPayload)>::empty()
        } else {
            seq![(x, BroadcastPayload::Broadcast { message })]
        }),
    decreases nodes.len(),
{
    let tail = if x@ == me {
        Seq::<(String, BroadcastPayload)>::empty()
    } else {
        seq![(x, BroadcastPayload::Broadcast { message })]
    };
    if nodes.len() == 0 {
        assert(nodes.push(x).drop_first() =~= nodes);
        assert(nodes.push(x)[0] == x);
        assert(fanout(nodes, me, message) + tail =~= fanout(nodes.push(x), me, message));
    } else {
        lemma_fanout_snoc(nodes.drop_first(), x, me, message);
        assert(nodes.push(x).drop_first() =~= nodes.drop_first().push(x));
        assert(nodes.push(x)[0] == nodes[0]);
        if nodes[0]@ == me {
        } else {
            assert(seq![(nodes[0], BroadcastPayload::Broadcast { message })] + (fanout(
                nodes.drop_first(),
                me,
                message,
            ) + tail) =~= (seq![(nodes[0], BroadcastPayload::Broadcast { message })] + fanout(
                nodes.drop_first(),
                me,
                message,
            )) + tail);
        }
    }
}

proof fn lemma_fanout_len(nodes: Seq<String>, me: Seq<char>, message: i32)
    ensures
        fanout(nodes, me, message).len() <= nodes.len(),
    decreases nodes.len(),
{
    if nodes.len() > 0 {
        lemma_fanout_len(nodes.drop_first(), me, message);
    }
}

fn fanout_messages(list: &Vec<String>, me: &String, message: i32) -> (r: Vec<
    (String, BroadcastPayload),
>)
    ensures
        r@ == fanout(list@, me@, message),
{
    let mut r: Vec<(String, BroadcastPayload)> = Vec::new();
    let mut i: usize = 0;
    while i < list.len()
        invariant
            i <= list@.len(),
            r@ == fanout(list@.subrange(0, i as int), me@, message),
        decreases list@.len() - i,
    {
        proof {
            lemma_fanout_snoc(list@.subrange(0, i as int), list@[i as int], me@, message);
            assert(list@.subrange(0, i as int).push(list@[i as int]) =~= list@.subrange(
                0,
                i as int + 1,
            ));
        }
        let node = &list[i];
        if !str_eq(node, me) {
            let cloned = node.clone();
            r.push((cloned, BroadcastPayload::Broadcast { message }));
            proof {
                assert(r@ =~= fanout(list@.subrange(0, i as int + 1), me@, message));
            }
        }
        i = i + 1;
    }
    proof {
        assert(list@.subrange(0, list@.len() as int) =~= list@);
    }
    r
}

impl Id for BroadcastNode {
    open spec fn spec_node_id(&self) -> Seq<char> {
        self.node_id@
    }

    open spec fn spec_msg_id(&self) -> usize {
        self.id
    }

    open spec fn with_msg_id(self, m: usize) -> Self {
        BroadcastNode { id: m, ..self }
    }

    proof fn lemma_with_own_msg_id(&self) {
    }

    fn get_node_id(&self) -> (r: String) {
        self.node_id.clone()
    }

    fn get_msg_id(&self) -> (r: usize) {
        self.id
    }

    fn increment_msg_id(&mut self) {
        self.id = self.id + 1;
    }
}

impl Node<BroadcastPayload> for BroadcastNode {
    open spec fn is_init_state(init: Init, s: Self) -> bool {
        &&& s.id == 1
        &&& s.node_id == init.node_id
        &&& s.node_ids == init.node_ids
        &&& s.memory@ == Seq::<i32>::empty()
        &&& s.neighbors is None
    }

    open spec fn send_bound(&self) -> nat {
        self.neighbor_list().len()
    }

    open spec fn handle_post(
        pre: Self,
        input: BroadcastPayload,
        post: Self,
        rep: Option<BroadcastPayload>,
        sends: Seq<(String, BroadcastPayload)>,
    ) -> bool {
        broadcast_post(pre, input, post, rep, sends)
    }

    fn from_init_data(init: Init) -> (s: Self) {
        let memory: Vec<i32> = Vec::new();
        proof {
            assert(memory@ =~= Seq::<i32>::empty());
        }
        BroadcastNode {
            id: 1,
            node_id: init.node_id,
            node_ids: init.node_ids,
            memory,
            neighbors: None,
        }
    }

    fn handle(&mut self, input: BroadcastPayload) -> (r: (Option<BroadcastPayload>, Vec<
        (String, BroadcastPayload),
    >)) {
        match input {
            BroadcastPayload::Broadcast { message } => {
                if contains_value(&self.memory, message) {
                    (Some(BroadcastPayload::BroadcastOk {  }), Vec::new())
                } else {
                    self.memory.push(message);
                    let list = match &self.neighbors {
                        Some(ns) => ns,
                        None => &self.node_ids,
                    };
                    let sends = fanout_messages(list, &self.node_id, message);
                    proof {
                        lemma_fanout_len(
                            old(self).neighbor_list(),
                            old(self).node_id@,
                            message,
                        );
                    }
                    (Some(BroadcastPayload::BroadcastOk {  }), sends)
                }
            },
            BroadcastPayload::Read {  } => {
                let messages = clone_values(&self.memory);
                (Some(BroadcastPayload::ReadOk { messages }), Vec::new())
            },
            BroadcastPayload::Topology { topology } => {
                let found = lookup_neighbors(&topology.nodes, &self.node_id);
                match found {
                    Some(ns) => {
                        self.neighbors = Some(ns);
                    },
                    None => {},
                }
                (Some(BroadcastPayload::TopologyOk {  }), Vec::new())
            },
            BroadcastPayload::BroadcastOk {  } | BroadcastPayload::ReadOk { .. }
                | BroadcastPayload::TopologyOk {  } => (None, Vec::new()),
        }
    }
}

} // verus!
