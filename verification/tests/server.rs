use rsrpc::config::Config;
use rsrpc::server::{create_ready_response, RpcServer, ServerAction};
use rsrpc::transports::TransportEvent;
use rsrpc::types::{
    Activity, Assets, Button, CommandArgs, MetadataEntry, MetadataValue, ResponseData,
    RpcCommand, SetActivityArgs, Timestamps,
};

const NOW: Option<u128> = Some(1_700_000_000_000);

fn command(name: &str, args: CommandArgs) -> RpcCommand {
    RpcCommand { cmd: name.to_string(), args, nonce: Some("abc".to_string()) }
}

fn no_args() -> CommandArgs {
    CommandArgs { code: None, activity_args: None }
}

fn connected(server: &mut RpcServer, socket_id: u64, client_id: &str) {
    let actions = server.handle_event(
        TransportEvent::Connected { socket_id, client_id: client_id.to_string() },
        NOW,
    );
    assert_eq!(actions.len(), 1);
}

fn set_activity(server: &mut RpcServer, socket_id: u64, pid: u32, activity: Option<Activity>) -> Vec<ServerAction> {
    let args = CommandArgs { code: None, activity_args: Some(SetActivityArgs { pid, activity }) };
    let event = TransportEvent::Message { socket_id, command: command("SET_ACTIVITY", args) };
    assert!(RpcServer::accepts(&event, NOW));
    server.handle_event(event, NOW)
}

#[test]
fn ready_response_defaults() {
    let r = create_ready_response();
    assert_eq!(r.cmd, "DISPATCH");
    assert_eq!(r.evt.as_deref(), Some("READY"));
    assert!(r.nonce.is_none());
    match r.data {
        Some(ResponseData::Ready(d)) => {
            assert_eq!(d.v, 1);
            assert_eq!(d.config.api_endpoint, "//discord.com/api");
            assert_eq!(d.user.id, "1045800378228281345");
            assert_eq!(d.user.global_name, "rsRPC");
        }
        other => panic!("unexpected {:?}", other),
    }
}

#[test]
fn connect_sends_ready() {
    let mut server = RpcServer::new(Config::default());
    let actions = server.handle_event(
        TransportEvent::Connected { socket_id: 4, client_id: "777".to_string() },
        NOW,
    );
    match &actions[0] {
        ServerAction::Reply { socket_id, response } => {
            assert_eq!(*socket_id, 4);
            assert_eq!(response.evt.as_deref(), Some("READY"));
        }
        other => panic!("unexpected {:?}", other),
    }
    assert_eq!(server.clients.get(&4).unwrap().client_id, "777");
}

#[test]
fn set_activity_publishes_and_replies() {
    let mut server = RpcServer::new(Config::default());
    connected(&mut server, 4, "777");
    let activity = Activity {
        state: Some("In lobby".to_string()),
        timestamps: Some(Timestamps { start: Some(1_700_000_000), end: Some(1_700_000_000_500) }),
        assets: Some(Assets { large_image: Some("img".to_string()), ..Default::default() }),
        buttons: Some(vec![
            Button { label: "Join".to_string(), url: "https://a.example".to_string() },
            Button { label: "Watch".to_string(), url: "https://b.example".to_string() },
        ]),
        instance: Some(true),
        metadata: vec![MetadataEntry {
            key: "button_urls".to_string(),
            value: MetadataValue::Json("[]".to_string()),
        }],
        ..Default::default()
    };
    let actions = set_activity(&mut server, 4, 321, Some(activity));
    assert_eq!(actions.len(), 2);
    match &actions[0] {
        ServerAction::Publish(m) => {
            assert_eq!(m.pid, 321);
            assert_eq!(m.socket_id, "4");
            let a = m.activity.as_ref().unwrap();
            assert_eq!(a.application_id.as_deref(), Some("777"));
            assert_eq!(a.flags, 1);
            // Seconds become milliseconds; milliseconds stay.
            assert_eq!(a.timestamps, Some(Timestamps { start: Some(1_700_000_000_000), end: Some(1_700_000_000_500) }));
            assert_eq!(a.metadata.len(), 1);
            assert_eq!(a.metadata[0].key, "button_urls");
            match &a.metadata[0].value {
                MetadataValue::Urls(urls) => assert_eq!(
                    urls,
                    &vec!["https://a.example".to_string(), "https://b.example".to_string()]
                ),
                other => panic!("unexpected {:?}", other),
            }
        }
        other => panic!("unexpected {:?}", other),
    }
    match &actions[1] {
        ServerAction::Reply { socket_id, response } => {
            assert_eq!(*socket_id, 4);
            assert_eq!(response.cmd, "SET_ACTIVITY");
            assert_eq!(response.nonce.as_deref(), Some("abc"));
            assert!(response.evt.is_none());
            match &response.data {
                Some(ResponseData::Activity(ack)) => {
                    assert_eq!(ack.name, "");
                    assert_eq!(ack.activity_type, 0);
                    assert_eq!(ack.application_id, "777");
                    assert_eq!(ack.state.as_deref(), Some("In lobby"));
                    assert_eq!(ack.buttons, Some(vec!["Join".to_string(), "Watch".to_string()]));
                    assert_eq!(ack.timestamps.unwrap().start, Some(1_700_000_000_000));
                    assert_eq!(ack.assets.as_ref().unwrap().large_image.as_deref(), Some("img"));
                }
                other => panic!("unexpected {:?}", other),
            }
        }
        other => panic!("unexpected {:?}", other),
    }
    assert_eq!(server.clients.get(&4).unwrap().last_pid, Some(321));
}

#[test]
fn set_activity_for_unknown_socket_uses_empty_client_id() {
    let mut server = RpcServer::new(Config::default());
    let actions = set_activity(&mut server, 9, 1, Some(Activity::default()));
    match &actions[0] {
        ServerAction::Publish(m) => {
            assert_eq!(m.activity.as_ref().unwrap().application_id.as_deref(), Some(""));
            assert_eq!(m.activity.as_ref().unwrap().flags, 0);
        }
        other => panic!("unexpected {:?}", other),
    }
    assert!(server.clients.is_empty());
}

#[test]
fn clearing_activity() {
    let mut server = RpcServer::new(Config::default());
    connected(&mut server, 2, "1");
    let actions = set_activity(&mut server, 2, 55, None);
    match (&actions[0], &actions[1]) {
        (ServerAction::Publish(m), ServerAction::Reply { response, .. }) => {
            assert!(m.activity.is_none());
            assert_eq!(m.pid, 55);
            assert!(response.data.is_none());
        }
        other => panic!("unexpected {:?}", other),
    }
}

#[test]
fn disconnect_clears_with_last_pid() {
    let mut server = RpcServer::new(Config::default());
    connected(&mut server, 8, "1");
    set_activity(&mut server, 8, 66, Some(Activity::default()));
    let actions = server.handle_event(TransportEvent::Disconnected { socket_id: 8 }, NOW);
    assert_eq!(actions.len(), 1);
    match &actions[0] {
        ServerAction::Publish(m) => {
            assert!(m.activity.is_none());
            assert_eq!(m.pid, 66);
            assert_eq!(m.socket_id, "8");
        }
        other => panic!("unexpected {:?}", other),
    }
    assert!(server.clients.is_empty());
    // A second disconnect does nothing.
    assert!(server.handle_event(TransportEvent::Disconnected { socket_id: 8 }, NOW).is_empty());
}

#[test]
fn disconnect_without_activity_uses_pid_zero() {
    let mut server = RpcServer::new(Config::default());
    connected(&mut server, 3, "1");
    let actions = server.handle_event(TransportEvent::Disconnected { socket_id: 3 }, NOW);
    match &actions[0] {
        ServerAction::Publish(m) => assert_eq!(m.pid, 0),
        other => panic!("unexpected {:?}", other),
    }
}

#[test]
fn other_commands() {
    let mut server = RpcServer::new(Config::default());
    let reply = |actions: Vec<ServerAction>| match actions.into_iter().next() {
        Some(ServerAction::Reply { response, .. }) => response,
        other => panic!("unexpected {:?}", other),
    };
    let r = reply(server.handle_event(
        TransportEvent::Message { socket_id: 1, command: command("CONNECTIONS_CALLBACK", no_args()) },
        NOW,
    ));
    assert!(matches!(r.data, Some(ResponseData::Code(1000))));
    assert_eq!(r.evt.as_deref(), Some("ERROR"));
    assert_eq!(r.nonce.as_deref(), Some("abc"));

    let args = CommandArgs { code: Some("xyz".to_string()), activity_args: None };
    let r = reply(server.handle_event(
        TransportEvent::Message { socket_id: 1, command: command("INVITE_BROWSER", args) },
        NOW,
    ));
    match r.data {
        Some(ResponseData::InviteCode(c)) => assert_eq!(c, "xyz"),
        other => panic!("unexpected {:?}", other),
    }
    let r = reply(server.handle_event(
        TransportEvent::Message { socket_id: 1, command: command("GUILD_TEMPLATE_BROWSER", no_args()) },
        NOW,
    ));
    match r.data {
        Some(ResponseData::InviteCode(c)) => assert_eq!(c, ""),
        other => panic!("unexpected {:?}", other),
    }
    let r = reply(server.handle_event(
        TransportEvent::Message { socket_id: 1, command: command("DEEP_LINK", no_args()) },
        NOW,
    ));
    assert!(r.data.is_none() && r.evt.is_none());
    assert_eq!(r.cmd, "DEEP_LINK");

    assert!(server
        .handle_event(TransportEvent::Message { socket_id: 1, command: command("FROBNICATE", no_args()) }, NOW)
        .is_empty());
    // SET_ACTIVITY whose arguments did not parse is dropped.
    assert!(server
        .handle_event(TransportEvent::Message { socket_id: 1, command: command("SET_ACTIVITY", no_args()) }, NOW)
        .is_empty());
}

#[test]
fn timestamps_that_would_overflow_are_refused() {
    let activity = Activity {
        timestamps: Some(Timestamps { start: Some(99_999_999_999_999), end: None }),
        ..Default::default()
    };
    let args = CommandArgs { code: None, activity_args: Some(SetActivityArgs { pid: 1, activity: Some(activity) }) };
    let event = TransportEvent::Message { socket_id: 1, command: command("SET_ACTIVITY", args) };
    assert!(!RpcServer::accepts(&event, NOW));
    // Without a clock the current time counts as 13 digits.
    let activity = Activity {
        timestamps: Some(Timestamps { start: Some(-5), end: None }),
        ..Default::default()
    };
    let mut server = RpcServer::new(Config::default());
    let args = CommandArgs { code: None, activity_args: Some(SetActivityArgs { pid: 1, activity: Some(activity) }) };
    let event = TransportEvent::Message { socket_id: 1, command: command("SET_ACTIVITY", args) };
    assert!(RpcServer::accepts(&event, None));
    match &server.handle_event(event, None)[0] {
        ServerAction::Publish(m) => assert_eq!(
            m.activity.as_ref().unwrap().timestamps.unwrap().start,
            Some(-5000)
        ),
        other => panic!("unexpected {:?}", other),
    }
}

#[test]
fn config_defaults() {
    let c = Config::default();
    assert_eq!(c.bridge_port, 1337);
    assert_eq!(c.msgpack_port, 1338);
    assert_eq!(c.ws_port_start, 6463);
    assert_eq!(c.ws_port_end, 6472);
    assert!(c.process_scanning);
    assert_eq!(c.scan_interval_ms, 5000);
    assert!(!c.debug);
    assert_eq!(c.db_url, "https://discord.com/api/v9/applications/detectable");
    assert!(!c.enable_db_update);
}

#[test]
fn session_with_other_command_clears_with_pid_zero() {
    let mut server = RpcServer::new(Config::default());
    connected(&mut server, 12, "9");
    let event = TransportEvent::Message { socket_id: 12, command: command("DEEP_LINK", no_args()) };
    assert!(RpcServer::accepts(&event, NOW));
    assert_eq!(server.handle_event(event, NOW).len(), 1);
    let actions = server.handle_event(TransportEvent::Disconnected { socket_id: 12 }, NOW);
    assert_eq!(actions.len(), 1);
    match &actions[0] {
        ServerAction::Publish(m) => {
            assert!(m.activity.is_none());
            assert_eq!(m.pid, 0);
            assert_eq!(m.socket_id, "12");
        }
        other => panic!("unexpected {:?}", other),
    }
    assert!(server.clients.is_empty());
}

#[test]
fn database_fetched_at_startup_when_scanning() {
    let mut config = Config::default();
    assert!(config.fetch_database_at_startup());
    config.enable_db_update = true;
    assert!(config.fetch_database_at_startup());
    config.process_scanning = false;
    assert!(!config.fetch_database_at_startup());
}
