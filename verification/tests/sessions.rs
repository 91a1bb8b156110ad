use rsrpc::transports::ipc::{encode_message, IpcAction, IpcInput, IpcSession};
use rsrpc::transports::websocket::{
    accept_origin, is_allowed_origin, parse_query, WsSession, WsText,
};
use rsrpc::transports::TransportEvent;
use rsrpc::types::{CloseCode, CommandArgs, Handshake, IpcOpcode, RpcCommand};

fn command(name: &str) -> RpcCommand {
    RpcCommand {
        cmd: name.to_string(),
        args: CommandArgs { code: None, activity_args: None },
        nonce: Some("n1".to_string()),
    }
}

#[test]
fn ipc_handshake_connects() {
    let mut s = IpcSession::new(7);
    let action = s.on_input(IpcInput::Handshake(Some(Handshake { v: 1, client_id: "123".to_string() })));
    match action {
        IpcAction::Connect(TransportEvent::Connected { socket_id, client_id }) => {
            assert_eq!(socket_id, 7);
            assert_eq!(client_id, "123");
        }
        other => panic!("unexpected {:?}", other),
    }
    assert!(s.handshook);
    assert_eq!(s.client_id, "123");
    // A second handshake is ignored.
    let again = s.on_input(IpcInput::Handshake(Some(Handshake { v: 1, client_id: "456".to_string() })));
    assert!(matches!(again, IpcAction::Continue));
    assert_eq!(s.client_id, "123");
}

#[test]
fn ipc_wrong_version_closes() {
    let mut s = IpcSession::new(1);
    let action = s.on_input(IpcInput::Handshake(Some(Handshake { v: 2, client_id: "123".to_string() })));
    match action {
        IpcAction::CloseWith { code, message } => {
            assert_eq!(code, CloseCode::Unsupported);
            assert_eq!(message, "Invalid version");
        }
        other => panic!("unexpected {:?}", other),
    }
    assert!(!s.handshook);
}

#[test]
fn ipc_bad_handshake_fails() {
    let mut s = IpcSession::new(1);
    assert!(matches!(s.on_input(IpcInput::Handshake(None)), IpcAction::Fail));
}

#[test]
fn ipc_frames_need_handshake() {
    let mut s = IpcSession::new(3);
    assert!(matches!(s.on_input(IpcInput::Frame(Some(command("SET_ACTIVITY")))), IpcAction::Continue));
    s.on_input(IpcInput::Handshake(Some(Handshake { v: 1, client_id: "9".to_string() })));
    match s.on_input(IpcInput::Frame(Some(command("DEEP_LINK")))) {
        IpcAction::Forward(TransportEvent::Message { socket_id, command }) => {
            assert_eq!(socket_id, 3);
            assert_eq!(command.cmd, "DEEP_LINK");
        }
        other => panic!("unexpected {:?}", other),
    }
    assert!(matches!(s.on_input(IpcInput::Frame(None)), IpcAction::Fail));
}

#[test]
fn ipc_ping_pong_close() {
    let mut s = IpcSession::new(0);
    match s.on_input(IpcInput::Ping(b"abc".to_vec())) {
        IpcAction::Reply(bytes) => assert_eq!(bytes, encode_message(IpcOpcode::Pong, b"abc")),
        other => panic!("unexpected {:?}", other),
    }
    assert!(matches!(s.on_input(IpcInput::Pong), IpcAction::Continue));
    assert!(matches!(s.on_input(IpcInput::Close), IpcAction::End));
}

#[test]
fn ws_first_message_connects() {
    let mut s = WsSession::new(1000);
    let events = s.on_text(Some(WsText {
        client_id: Some("42".to_string()),
        command: Some(command("SET_ACTIVITY")),
    }));
    assert_eq!(events.len(), 2);
    match &events[0] {
        TransportEvent::Connected { socket_id, client_id } => {
            assert_eq!(*socket_id, 1000);
            assert_eq!(client_id, "42");
        }
        other => panic!("unexpected {:?}", other),
    }
    assert!(matches!(&events[1], TransportEvent::Message { socket_id: 1000, .. }));
    // Later messages only forward commands.
    let events = s.on_text(Some(WsText { client_id: Some("99".to_string()), command: None }));
    assert!(events.is_empty());
    assert_eq!(s.client_id, "42");
}

#[test]
fn ws_invalid_json_is_ignored() {
    let mut s = WsSession::new(5);
    assert!(s.on_text(None).is_empty());
    assert!(!s.connected);
    let events = s.on_text(Some(WsText { client_id: None, command: None }));
    assert_eq!(events.len(), 1);
    match &events[0] {
        TransportEvent::Connected { client_id, .. } => assert_eq!(client_id, ""),
        other => panic!("unexpected {:?}", other),
    }
}

#[test]
fn origins() {
    assert!(is_allowed_origin("https://discord.com"));
    assert!(is_allowed_origin("https://ptb.discord.com"));
    assert!(is_allowed_origin("https://canary.discord.com"));
    assert!(!is_allowed_origin("https://evil.example"));
    assert!(!accept_origin("https://evil.example"));
    assert!(!accept_origin("https://discord.com.evil.example"));
    assert!(accept_origin(""));
    assert!(accept_origin("https://discord.com"));
    assert!(accept_origin("https://canary.discord.com"));
}

#[test]
fn query_pairs_last_wins() {
    let mut pairs = parse_query("v=1&client_id=abc&encoding=json&v=2&flag&x=a=b");
    pairs.sort();
    assert_eq!(
        pairs,
        vec![
            ("client_id".to_string(), "abc".to_string()),
            ("encoding".to_string(), "json".to_string()),
            ("v".to_string(), "2".to_string()),
            ("x".to_string(), "a=b".to_string()),
        ]
    );
    assert!(parse_query("").is_empty());
}
