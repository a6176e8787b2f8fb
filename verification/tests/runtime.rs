use maelstromrs::echo::{EchoNode, EchoPayload};
use maelstromrs::node::{from_init, reply};
use maelstromrs::protocol::{Body, HandshakeError, Init, InitPayload, Message};

fn init_message(msg_id: Option<usize>) -> Message<InitPayload> {
    Message {
        src: "c0".to_string(),
        dest: "n1".to_string(),
        body: Body {
            msg_id,
            in_reply_to: None,
            payload: InitPayload::Init(Init {
                node_id: "n1".to_string(),
                node_ids: vec!["n1".to_string(), "n2".to_string()],
            }),
        },
    }
}

#[test]
fn handshake_acknowledges_init_first() {
    let r: Result<(EchoNode, Message<InitPayload>), HandshakeError> = from_init(init_message(Some(1)));
    let (node, ack) = match r {
        Ok(v) => v,
        Err(_) => panic!("handshake refused an Init envelope"),
    };
    assert!(ack.src == "n1");
    assert!(ack.dest == "c0");
    assert!(ack.body.msg_id == Some(0));
    assert!(ack.body.in_reply_to == Some(1));
    assert!(matches!(ack.body.payload, InitPayload::InitOk));
    assert!(node.id == 1);
    assert!(node.node_id == "n1");
    assert!(node.node_ids == vec!["n1".to_string(), "n2".to_string()]);
}

#[test]
fn handshake_rejects_other_leading_payload() {
    let msg = Message {
        src: "c0".to_string(),
        dest: "n1".to_string(),
        body: Body { msg_id: Some(1), in_reply_to: None, payload: InitPayload::InitOk },
    };
    let r: Result<(EchoNode, Message<InitPayload>), HandshakeError> = from_init(msg);
    match r {
        Ok(_) => panic!("a leading InitOk must be fatal"),
        Err(e) => assert!(matches!(e, HandshakeError::ExpectedInit)),
    }
}

#[test]
fn echo_request_is_answered_in_kind() {
    let r: Result<(EchoNode, Message<InitPayload>), HandshakeError> = from_init(init_message(Some(1)));
    let (mut node, _ack) = r.ok().unwrap();
    let input = Message {
        src: "c1".to_string(),
        dest: "n1".to_string(),
        body: Body {
            msg_id: Some(1),
            in_reply_to: None,
            payload: EchoPayload::Echo { echo: "hi".to_string() },
        },
    };
    let out = reply(&mut node, input);
    assert!(out.len() == 1);
    let m = &out[0];
    assert!(m.src == "n1");
    assert!(m.dest == "c1");
    assert!(m.body.msg_id == Some(1));
    assert!(m.body.in_reply_to == Some(1));
    match &m.body.payload {
        EchoPayload::EchoOk { echo } => assert!(echo == "hi"),
        _ => panic!("the reply must be an EchoOk"),
    }
}

#[test]
fn received_echo_ok_is_ignored() {
    let mut node = EchoNode { id: 5, node_id: "n1".to_string(), node_ids: vec![] };
    let input = Message {
        src: "c1".to_string(),
        dest: "n1".to_string(),
        body: Body {
            msg_id: Some(9),
            in_reply_to: Some(2),
            payload: EchoPayload::EchoOk { echo: "hi".to_string() },
        },
    };
    let out = reply(&mut node, input);
    assert!(out.is_empty());
    assert!(node.id == 5);
}

#[test]
fn message_ids_increase_across_steps() {
    let mut node = EchoNode { id: 1, node_id: "n1".to_string(), node_ids: vec![] };
    let mut seen: Vec<usize> = Vec::new();
    for k in 0..4usize {
        let input = Message {
            src: "c1".to_string(),
            dest: "n1".to_string(),
            body: Body {
                msg_id: Some(10 + k),
                in_reply_to: None,
                payload: EchoPayload::Echo { echo: "x".to_string() },
            },
        };
        let out = reply(&mut node, input);
        assert!(out.len() == 1);
        assert!(out[0].body.in_reply_to == Some(10 + k));
        seen.push(out[0].body.msg_id.unwrap());
    }
    for w in seen.windows(2) {
        assert!(w[0] < w[1]);
    }
    assert!(seen == vec![1, 2, 3, 4]);
}
