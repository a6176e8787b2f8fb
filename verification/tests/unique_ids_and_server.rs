use maelstromrs::node::reply;
use maelstromrs::protocol::{Body, Message};
use maelstromrs::server::{EchoServer, ServerError, ServerPayload};
use maelstromrs::unique_ids::{usize_to_string, UniqueIdNode, UniquePayload};

fn generate_envelope(msg_id: usize) -> Message<UniquePayload> {
    Message {
        src: "c1".to_string(),
        dest: "n1".to_string(),
        body: Body { msg_id: Some(msg_id), in_reply_to: None, payload: UniquePayload::Generate {} },
    }
}

#[test]
fn two_generate_requests_yield_distinct_ids() {
    let mut n = UniqueIdNode { id: 1, node_id: "n1".to_string(), node_ids: vec![] };
    let out1 = reply(&mut n, generate_envelope(1));
    let out2 = reply(&mut n, generate_envelope(2));
    assert!(out1.len() == 1 && out2.len() == 1);
    let id1 = match &out1[0].body.payload {
        UniquePayload::GenerateOk { id } => id.clone(),
        _ => panic!("Generate must be answered with GenerateOk"),
    };
    let id2 = match &out2[0].body.payload {
        UniquePayload::GenerateOk { id } => id.clone(),
        _ => panic!("Generate must be answered with GenerateOk"),
    };
    assert!(id1 != id2);
    assert!(id1 == "1n1");
    assert!(id2 == "2n1");
}

#[test]
fn decimal_rendering_is_exact() {
    assert!(usize_to_string(0) == "0");
    assert!(usize_to_string(7) == "7");
    assert!(usize_to_string(10) == "10");
    assert!(usize_to_string(907) == "907");
    assert!(usize_to_string(usize::MAX) == "18446744073709551615");
}

fn server_envelope(msg_id: usize, payload: ServerPayload) -> Message<ServerPayload> {
    Message {
        src: "c1".to_string(),
        dest: "n1".to_string(),
        body: Body { msg_id: Some(msg_id), in_reply_to: None, payload },
    }
}

#[test]
fn server_answers_init_then_echo() {
    let mut s = EchoServer { id: 0, initialized: false };
    let init = server_envelope(
        1,
        ServerPayload::Init { node_id: "n1".to_string(), node_ids: vec!["n1".to_string()] },
    );
    let r = s.step(init);
    let m = r.ok().unwrap().unwrap();
    assert!(m.src == "n1" && m.dest == "c1");
    assert!(m.body.msg_id == Some(0));
    assert!(m.body.in_reply_to == Some(1));
    assert!(matches!(m.body.payload, ServerPayload::InitOk));
    assert!(s.id == 1);

    let echo = server_envelope(2, ServerPayload::Echo { echo: "hello".to_string() });
    let r = s.step(echo);
    let m = r.ok().unwrap().unwrap();
    assert!(m.body.msg_id == Some(1));
    assert!(m.body.in_reply_to == Some(2));
    match &m.body.payload {
        ServerPayload::EchoOk { echo } => assert!(echo == "hello"),
        _ => panic!("the reply must be an EchoOk"),
    }
    assert!(s.id == 2);
}

#[test]
fn server_rejects_received_init_ok() {
    let mut s = EchoServer { id: 3, initialized: true };
    let r = s.step(server_envelope(1, ServerPayload::InitOk));
    match r {
        Err(e) => assert!(matches!(e, ServerError::UnexpectedInitOk)),
        Ok(_) => panic!("a received InitOk must be an error"),
    }
    assert!(s.id == 3);
}

#[test]
fn server_ignores_received_echo_ok() {
    let mut s = EchoServer { id: 3, initialized: true };
    let r = s.step(server_envelope(1, ServerPayload::EchoOk { echo: "x".to_string() }));
    assert!(matches!(r, Ok(None)));
    assert!(s.id == 3);
}

#[test]
fn server_rejects_pre_handshake_echo() {
    let mut s = EchoServer { id: 0, initialized: false };
    let r = s.step(server_envelope(1, ServerPayload::Echo { echo: "hi".to_string() }));
    match r {
        Err(e) => assert!(matches!(e, ServerError::ExpectedInit)),
        Ok(_) => panic!("a pre-handshake Echo must be fatal, with no output"),
    }
    assert!(s.id == 0);
    assert!(!s.initialized);
}

#[test]
fn server_rejects_any_pre_handshake_non_init() {
    let mut s = EchoServer { id: 0, initialized: false };
    let r = s.step(server_envelope(1, ServerPayload::EchoOk { echo: "x".to_string() }));
    assert!(matches!(r, Err(ServerError::ExpectedInit)));
    let r = s.step(server_envelope(2, ServerPayload::InitOk));
    assert!(matches!(r, Err(ServerError::ExpectedInit)));
    assert!(s.id == 0);
    assert!(!s.initialized);
}
