use rsrpc::protocol::Protocol;
use rsrpc::types::{DiscordConfig, IpcOpcode, User};

#[test]
fn test_protocol_detection() {
    // JSON detection
    assert_eq!(Protocol::detect(b"{\"test\": 1}"), Protocol::Json);
    assert_eq!(Protocol::detect(b"[1, 2, 3]"), Protocol::Json);

    // MessagePack detection (binary)
    assert_eq!(Protocol::detect(&[0x82, 0xa3]), Protocol::MsgPack);

    // Empty defaults to JSON
    assert_eq!(Protocol::detect(&[]), Protocol::Json);
}

#[test]
fn test_ipc_opcode_conversion() {
    assert_eq!(IpcOpcode::try_from(0), Ok(IpcOpcode::Handshake));
    assert_eq!(IpcOpcode::try_from(1), Ok(IpcOpcode::Frame));
    assert_eq!(IpcOpcode::try_from(2), Ok(IpcOpcode::Close));
    assert_eq!(IpcOpcode::try_from(3), Ok(IpcOpcode::Ping));
    assert_eq!(IpcOpcode::try_from(4), Ok(IpcOpcode::Pong));
    assert!(IpcOpcode::try_from(99).is_err());
}

#[test]
fn test_ready_data_defaults() {
    let config = DiscordConfig::default();
    assert_eq!(config.cdn_host, "cdn.discordapp.com");
    assert_eq!(config.environment, "production");

    let user = User::default();
    assert_eq!(user.username, "rsrpc");
    assert!(!user.bot);
}
