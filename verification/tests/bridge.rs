use rsrpc::bridge::Bridge;
use rsrpc::config::Config;
use rsrpc::protocol::Protocol;
use rsrpc::types::{Activity, ActivityMessage};

fn message(socket: &str, name: Option<&str>, pid: u32) -> ActivityMessage {
    ActivityMessage {
        activity: name.map(|n| Activity { name: Some(n.to_string()), ..Default::default() }),
        pid,
        socket_id: socket.to_string(),
    }
}

#[test]
fn send_stores_and_broadcasts_twice() {
    let mut bridge = Bridge::new(Config::default());
    let out = bridge.send_activity(message("1", Some("Game"), 10));
    assert_eq!(out.len(), 2);
    assert_eq!(out[0].1, Protocol::Json);
    assert_eq!(out[1].1, Protocol::MsgPack);
    assert_eq!(out[0].0.socket_id, "1");
    assert_eq!(out[1].0.pid, 10);
    let stored = bridge.last_activity("1").unwrap();
    assert_eq!(stored.pid, 10);
    assert_eq!(stored.activity.unwrap().name.as_deref(), Some("Game"));
}

#[test]
fn later_message_replaces_earlier() {
    let mut bridge = Bridge::new(Config::default());
    bridge.send_activity(message("1", Some("A"), 1));
    bridge.send_activity(message("1", Some("B"), 2));
    let stored = bridge.last_activity("1").unwrap();
    assert_eq!(stored.pid, 2);
    assert_eq!(bridge.late_joiner_messages().len(), 1);
}

#[test]
fn late_joiners_get_only_activities() {
    let mut bridge = Bridge::new(Config::default());
    bridge.send_activity(message("1", Some("A"), 1));
    bridge.send_activity(message("2", None, 2));
    bridge.send_activity(message("3", Some("C"), 3));
    let mut sockets: Vec<String> =
        bridge.late_joiner_messages().into_iter().map(|m| m.socket_id).collect();
    sockets.sort();
    assert_eq!(sockets, vec!["1".to_string(), "3".to_string()]);
    // The cleared socket stays stored, without activity.
    assert!(bridge.last_activity("2").unwrap().activity.is_none());
}

#[test]
fn clear_removes_socket() {
    let mut bridge = Bridge::new(Config::default());
    bridge.send_activity(message("1", Some("A"), 1));
    bridge.send_activity(message("2", Some("B"), 2));
    bridge.clear_activity("1");
    assert!(bridge.last_activity("1").is_none());
    assert_eq!(bridge.last_activity("2").unwrap().pid, 2);
    bridge.clear_activity("unknown");
    assert_eq!(bridge.late_joiner_messages().len(), 1);
    assert_eq!(bridge.config().bridge_port, 1337);
}
