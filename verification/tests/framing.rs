use rsrpc::protocol::Protocol;
use rsrpc::text::decimal_string;
use rsrpc::transports::ipc::{decode_header, encode_message, FrameError};
use rsrpc::transports::{SocketIdAllocator, IPC_FIRST_SOCKET_ID, WS_FIRST_SOCKET_ID};
use rsrpc::types::{CloseCode, ErrorCode, IpcOpcode};

#[test]
fn frame_has_little_endian_header() {
    let frame = encode_message(IpcOpcode::Frame, b"{}");
    assert_eq!(frame, vec![1, 0, 0, 0, 2, 0, 0, 0, b'{', b'}']);
}

#[test]
fn frame_of_long_payload_encodes_length() {
    let data = vec![7u8; 300];
    let frame = encode_message(IpcOpcode::Pong, &data);
    assert_eq!(&frame[0..8], &[4, 0, 0, 0, 0x2c, 0x01, 0, 0]);
    assert_eq!(&frame[8..], &data[..]);
}

#[test]
fn frame_header_roundtrip() {
    let data = b"hello world".to_vec();
    for op in [IpcOpcode::Handshake, IpcOpcode::Frame, IpcOpcode::Close, IpcOpcode::Ping, IpcOpcode::Pong] {
        let frame = encode_message(op, &data);
        let mut header = [0u8; 8];
        header.copy_from_slice(&frame[..8]);
        assert_eq!(decode_header(&header), Ok((op, data.len() as u32)));
        assert_eq!(&frame[8..], &data[..]);
    }
}

#[test]
fn header_with_unknown_opcode_is_rejected() {
    let header = [5u8, 0, 0, 0, 0, 0, 0, 0];
    assert_eq!(decode_header(&header), Err(FrameError::InvalidOpcode(5)));
    let header = [0u8, 1, 0, 0, 3, 0, 0, 0];
    assert_eq!(decode_header(&header), Err(FrameError::InvalidOpcode(256)));
}

#[test]
fn header_decodes_large_length() {
    let header = [1u8, 0, 0, 0, 0xff, 0xff, 0xff, 0xff];
    assert_eq!(decode_header(&header), Ok((IpcOpcode::Frame, u32::MAX)));
}

#[test]
fn opcode_codes() {
    assert_eq!(IpcOpcode::Handshake.code(), 0);
    assert_eq!(IpcOpcode::Pong.code(), 4);
    for v in 0u32..5 {
        assert_eq!(IpcOpcode::try_from(v).unwrap().code(), v);
    }
}

#[test]
fn close_and_error_codes() {
    assert_eq!(CloseCode::Normal.code(), 1000);
    assert_eq!(CloseCode::Unsupported.code(), 1003);
    assert_eq!(CloseCode::Abnormal.code(), 1006);
    assert_eq!(ErrorCode::InvalidClientId.code(), 4000);
    assert_eq!(ErrorCode::InvalidOrigin.code(), 4001);
    assert_eq!(ErrorCode::RateLimited.code(), 4002);
    assert_eq!(ErrorCode::TokenRevoked.code(), 4003);
    assert_eq!(ErrorCode::InvalidVersion.code(), 4004);
    assert_eq!(ErrorCode::InvalidEncoding.code(), 4005);
}

#[test]
fn query_selects_protocol() {
    assert_eq!(Protocol::from_query("format=msgpack"), Some(Protocol::MsgPack));
    assert_eq!(Protocol::from_query("v=1&format=messagepack"), Some(Protocol::MsgPack));
    assert_eq!(Protocol::from_query("format=json&x=1"), Some(Protocol::Json));
    assert_eq!(Protocol::from_query("format=json&format=msgpack"), Some(Protocol::MsgPack));
    assert_eq!(Protocol::from_query("encoding=etf"), None);
    assert_eq!(Protocol::from_query(""), None);
}

#[test]
fn socket_ids_count_up_and_wrap() {
    let mut ipc = SocketIdAllocator::new(IPC_FIRST_SOCKET_ID);
    assert_eq!(ipc.next_id(), 1);
    assert_eq!(ipc.next_id(), 3);
    let mut ws = SocketIdAllocator::new(WS_FIRST_SOCKET_ID);
    assert_eq!(ws.next_id(), 1000);
    assert_eq!(ws.next_id(), 1002);
    let mut edge = SocketIdAllocator::new(u64::MAX);
    assert_eq!(edge.next_id(), u64::MAX);
    assert_eq!(edge.next_id(), 1);
    let mut even_edge = SocketIdAllocator::new(u64::MAX - 1);
    assert_eq!(even_edge.next_id(), u64::MAX - 1);
    assert_eq!(even_edge.next_id(), 0);
}

#[test]
fn ipc_and_websocket_ids_never_collide() {
    let mut ipc = SocketIdAllocator::new(IPC_FIRST_SOCKET_ID);
    let mut ws = SocketIdAllocator::new(WS_FIRST_SOCKET_ID);
    let ipc_ids: Vec<u64> = (0..1500).map(|_| ipc.next_id()).collect();
    let ws_ids: Vec<u64> = (0..1500).map(|_| ws.next_id()).collect();
    assert!(ipc_ids.iter().all(|i| !ws_ids.contains(i)));
    assert_eq!(ipc_ids[500], 1001);
}

#[test]
fn decimal_strings() {
    assert_eq!(decimal_string(0), "0");
    assert_eq!(decimal_string(42), "42");
    assert_eq!(decimal_string(1000), "1000");
    assert_eq!(decimal_string(u64::MAX), "18446744073709551615");
}

#[test]
fn bridge_connection_protocol() {
    assert_eq!(Protocol::for_connection(Protocol::Json, Some("format=msgpack")), Protocol::MsgPack);
    assert_eq!(Protocol::for_connection(Protocol::MsgPack, Some("format=json")), Protocol::Json);
    assert_eq!(Protocol::for_connection(Protocol::MsgPack, Some("v=1")), Protocol::MsgPack);
    assert_eq!(Protocol::for_connection(Protocol::Json, None), Protocol::Json);
    assert!(Protocol::Json.uses_text_frames());
    assert!(!Protocol::MsgPack.uses_text_frames());
}
