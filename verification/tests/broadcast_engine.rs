use maelstromrs::broadcast::{BroadcastNode, BroadcastPayload, Topology};
use maelstromrs::node::reply;
use maelstromrs::protocol::{Body, Message};

fn node(node_id: &str, peers: &[&str]) -> BroadcastNode {
    BroadcastNode {
        id: 1,
        node_id: node_id.to_string(),
        node_ids: peers.iter().map(|p| p.to_string()).collect(),
        memory: Vec::new(),
        neighbors: None,
    }
}

fn envelope(src: &str, dest: &str, msg_id: usize, payload: BroadcastPayload) -> Message<BroadcastPayload> {
    Message {
        src: src.to_string(),
        dest: dest.to_string(),
        body: Body { msg_id: Some(msg_id), in_reply_to: None, payload },
    }
}

fn sorted(mut v: Vec<i32>) -> Vec<i32> {
    v.sort();
    v
}

fn read_values(node: &mut BroadcastNode, msg_id: usize) -> Vec<i32> {
    let out = reply(node, envelope("c1", "A", msg_id, BroadcastPayload::Read {}));
    assert!(out.len() == 1);
    match &out[0].body.payload {
        BroadcastPayload::ReadOk { messages } => messages.clone(),
        _ => panic!("Read must be answered with ReadOk"),
    }
}

#[test]
fn duplicate_delivery_inserts_once_and_acknowledges_twice() {
    let mut n = node("A", &["A"]);
    for round in 0..2usize {
        let out = reply(&mut n, envelope("c1", "A", 7 + round, BroadcastPayload::Broadcast { message: 42 }));
        assert!(out.len() == 1, "a lone node floods to nobody");
        assert!(matches!(out[0].body.payload, BroadcastPayload::BroadcastOk {}));
        assert!(out[0].body.in_reply_to == Some(7 + round));
        assert!(n.memory == vec![42]);
    }
}

#[test]
fn read_returns_distinct_values_whatever_the_order() {
    let mut first = node("A", &["A"]);
    for v in [3, 1, 2, 1, 3] {
        reply(&mut first, envelope("c1", "A", 5, BroadcastPayload::Broadcast { message: v }));
    }
    let mut second = node("A", &["A"]);
    for v in [1, 2, 3] {
        reply(&mut second, envelope("c1", "A", 5, BroadcastPayload::Broadcast { message: v }));
    }
    let a = sorted(read_values(&mut first, 9));
    let b = sorted(read_values(&mut second, 9));
    assert!(a == vec![1, 2, 3]);
    assert!(a == b);
}

#[test]
fn topology_bounds_the_flood() {
    let mut n = node("A", &["A", "B", "C", "D"]);
    let topology = Topology {
        nodes: vec![
            ("A".to_string(), vec!["B".to_string(), "C".to_string()]),
            ("B".to_string(), vec!["A".to_string()]),
            ("C".to_string(), vec!["A".to_string()]),
        ],
    };
    let out = reply(&mut n, envelope("c1", "A", 1, BroadcastPayload::Topology { topology }));
    assert!(out.len() == 1);
    assert!(matches!(out[0].body.payload, BroadcastPayload::TopologyOk {}));

    let out = reply(&mut n, envelope("c1", "A", 2, BroadcastPayload::Broadcast { message: 7 }));
    assert!(out.len() == 3, "two peer sends, then the acknowledgment");
    assert!(out[0].src == "A" && out[0].dest == "B");
    assert!(matches!(out[0].body.payload, BroadcastPayload::Broadcast { message: 7 }));
    assert!(out[0].body.in_reply_to == None);
    assert!(out[1].src == "A" && out[1].dest == "C");
    assert!(matches!(out[1].body.payload, BroadcastPayload::Broadcast { message: 7 }));
    assert!(out[1].body.in_reply_to == None);
    assert!(out[2].dest == "c1");
    assert!(matches!(out[2].body.payload, BroadcastPayload::BroadcastOk {}));
    assert!(out[2].body.in_reply_to == Some(2));
    let ids: Vec<usize> = out.iter().map(|m| m.body.msg_id.unwrap()).collect();
    assert!(ids == vec![2, 3, 4]);
}

#[test]
fn without_topology_the_flood_reaches_all_other_peers() {
    let mut n = node("B", &["A", "B", "C"]);
    let out = reply(&mut n, envelope("c1", "B", 1, BroadcastPayload::Broadcast { message: -4 }));
    assert!(out.len() == 3);
    assert!(out[0].dest == "A");
    assert!(out[1].dest == "C");
    assert!(matches!(out[2].body.payload, BroadcastPayload::BroadcastOk {}));
}

#[test]
fn topology_without_own_entry_keeps_the_fallback() {
    let mut n = node("Z", &["Z", "Q"]);
    let topology = Topology { nodes: vec![("A".to_string(), vec!["B".to_string()])] };
    reply(&mut n, envelope("c1", "Z", 1, BroadcastPayload::Topology { topology }));
    assert!(n.neighbors.is_none());
    let out = reply(&mut n, envelope("c1", "Z", 2, BroadcastPayload::Broadcast { message: 0 }));
    assert!(out.len() == 2);
    assert!(out[0].dest == "Q");
}

#[test]
fn empty_roster_floods_to_nobody() {
    let mut n = node("A", &[]);
    let out = reply(&mut n, envelope("c1", "A", 1, BroadcastPayload::Broadcast { message: 5 }));
    assert!(out.len() == 1);
    assert!(matches!(out[0].body.payload, BroadcastPayload::BroadcastOk {}));
    assert!(read_values(&mut n, 2) == vec![5]);
}

#[test]
fn received_acknowledgments_are_no_ops() {
    let mut n = node("A", &["A", "B"]);
    for payload in [
        BroadcastPayload::BroadcastOk {},
        BroadcastPayload::ReadOk { messages: vec![1] },
        BroadcastPayload::TopologyOk {},
    ] {
        let out = reply(&mut n, envelope("B", "A", 3, payload));
        assert!(out.is_empty());
        assert!(n.id == 1);
        assert!(n.memory.is_empty());
    }
}
