//! IPC transport logic: the frame format (little-endian opcode and length,
//! then the payload) and the per-connection session state machine.

use vstd::prelude::*;
use crate::transports::TransportEvent;
use crate::types::{
    opcode_of, opcode_value, CloseCode, Handshake, IpcOpcode, RpcCommand, SocketId,
};

verus! {

// ---------------------------------------------------------------------------
// Frame format
// ---------------------------------------------------------------------------

/// The four little-endian bytes of `x`.
pub open spec fn le_bytes(x: u32) -> Seq<u8> {
    seq![
        (x & 0xff) as u8,
        ((x >> 8u32) & 0xff) as u8,
        ((x >> 16u32) & 0xff) as u8,
        ((x >> 24u32) & 0xff) as u8,
    ]
}

/// The `u32` whose little-endian bytes are `b0 b1 b2 b3`.
pub open spec fn le_value(b0: u8, b1: u8, b2: u8, b3: u8) -> u32 {
    (b0 as u32) | ((b1 as u32) << 8u32) | ((b2 as u32) << 16u32) | ((b3 as u32) << 24u32)
}

/// The frame carrying `data` with opcode `op`: the opcode, the payload
/// length (as a `u32`), then the payload.
pub open spec fn frame_bytes(op: IpcOpcode, data: Seq<u8>) -> Seq<u8> {
    le_bytes(opcode_value(op)) + le_bytes(data.len() as u32) + data
}

/// Errors in an IPC frame header.
#[derive(Debug, Clone, Copy, PartialEq, Eq, Structural)]
pub enum FrameError {
    /// The opcode field holds no known opcode.
    InvalidOpcode(u32),
}

/// What an 8-byte frame header says: the opcode and the payload length.
pub open spec fn header_of(h: Seq<u8>) -> Result<(IpcOpcode, u32), FrameError> {
    let code = le_value(h[0], h[1], h[2], h[3]);
    match opcode_of(code) {
        Ok(op) => Ok((op, le_value(h[4], h[5], h[6], h[7]))),
        Err(_) => Err(FrameError::InvalidOpcode(code)),
    }
}

proof fn lemma_le_roundtrip(x: u32)
    ensures
        le_value(le_bytes(x)[0], le_bytes(x)[1], le_bytes(x)[2], le_bytes(x)[3]) == x,
{
    let b0 = (x & 0xff) as u8;
    let b1 = ((x >> 8u32) & 0xff) as u8;
    let b2 = ((x >> 16u32) & 0xff) as u8;
    let b3 = ((x >> 24u32) & 0xff) as u8;
    assert(((b0 as u32) | ((b1 as u32) << 8u32) | ((b2 as u32) << 16u32) | ((b3 as u32)
        << 24u32)) == x) by (bit_vector)
        requires
            b0 == (x & 0xff) as u8,
            b1 == ((x >> 8u32) & 0xff) as u8,
            b2 == ((x >> 16u32) & 0xff) as u8,
            b3 == ((x >> 24u32) & 0xff) as u8,
    ;
}

/// Reading back a frame: its header gives the opcode and the payload
/// length, and the payload follows the eight header bytes, for every
/// payload of at most `u32::MAX` bytes.
pub proof fn law_frame_roundtrip(op: IpcOpcode, data: Seq<u8>)
    requires
        data.len() <= u32::MAX,
    ensures
        frame_bytes(op, data).len() == 8 + data.len(),
        header_of(frame_bytes(op, data).take(8)) == Ok::<(IpcOpcode, u32), FrameError>(
            (op, data.len() as u32),
        ),
        frame_bytes(op, data).skip(8) == data,
{
    let f = frame_bytes(op, data);
    let n = data.len() as u32;
    lemma_le_roundtrip(opcode_value(op));
    lemma_le_roundtrip(n);
    let h = f.take(8);
    assert(h[0] == le_bytes(opcode_value(op))[0]);
    assert(h[1] == le_bytes(opcode_value(op))[1]);
    assert(h[2] == le_bytes(opcode_value(op))[2]);
    assert(h[3] == le_bytes(opcode_value(op))[3]);
    assert(h[4] == le_bytes(n)[0]);
    assert(h[5] == le_bytes(n)[1]);
    assert(h[6] == le_bytes(n)[2]);
    assert(h[7] == le_bytes(n)[3]);
    assert(n as int == data.len());
    assert(f.skip(8) =~= data);
}

fn push_le(out: &mut Vec<u8>, x: u32)
    ensures
        final(out)@ == old(out)@ + le_bytes(x),
{
    out.push((x & 0xff) as u8);
    out.push(((x >> 8u32) & 0xff) as u8);
    out.push(((x >> 16u32) & 0xff) as u8);
    out.push(((x >> 24u32) & 0xff) as u8);
    assert(out@ =~= old(out)@ + le_bytes(x));
}

/// Encode an IPC message with its header.
pub fn encode_message(opcode: IpcOpcode, data: &[u8]) -> (r: Vec<u8>)
    ensures
        r@ == frame_bytes(opcode, data@),
{
    let mut buffer: Vec<u8> = Vec::new();
    push_le(&mut buffer, opcode.code());
    push_le(&mut buffer, data.len() as u32);
    let ghost head = buffer@;
    let mut i: usize = 0;
    while i < data.len()
        invariant
            i <= data.len(),
            buffer@ == head + data@.take(i as int),
        decreases data.len() - i,
    {
        buffer.push(data[i]);
        assert(data@.take(i + 1) =~= data@.take(i as int).push(data@[i as int]));
        i += 1;
    }
    assert(data@.take(data.len() as int) =~= data@);
    buffer
}

/// Decode an 8-byte frame header into the opcode and the payload length.
pub fn decode_header(header: &[u8; 8]) -> (r: Result<(IpcOpcode, u32), FrameError>)
    ensures
        r == header_of(header@),
{
    let code = (header[0] as u32) | ((header[1] as u32) << 8u32) | ((header[2] as u32) << 16u32)
        | ((header[3] as u32) << 24u32);
    let size = (header[4] as u32) | ((header[5] as u32) << 8u32) | ((header[6] as u32) << 16u32)
        | ((header[7] as u32) << 24u32);
    match IpcOpcode::try_from(code) {
        Ok(op) => Ok((op, size)),
        Err(_) => Err(FrameError::InvalidOpcode(code)),
    }
}

// ---------------------------------------------------------------------------
// Session state machine
// ---------------------------------------------------------------------------

/// A frame received from an IPC client, with its payload read as the
/// opcode prescribes (`None` where the payload is not valid JSON of that
/// shape).
#[derive(Debug)]
pub enum IpcInput {
    Handshake(Option<Handshake>),
    Frame(Option<RpcCommand>),
    Ping(Vec<u8>),
    Pong,
    Close,
}

/// What the connection does after a frame.
#[derive(Debug)]
pub enum IpcAction {
    /// Nothing; keep reading.
    Continue,
    /// Register the client and report it connected.
    Connect(TransportEvent),
    /// Pass a command on to the server.
    Forward(TransportEvent),
    /// Write these bytes back to the client.
    Reply(Vec<u8>),
    /// Send a close frame with this code and message, then end the session.
    CloseWith { code: CloseCode, message: String },
    /// End the session: unregister the client and report it disconnected.
    End,
    /// Abandon the connection because a payload did not parse.
    Fail,
}

/// Per-connection state of an IPC client.
#[derive(Debug)]
pub struct IpcSession {
    pub socket_id: SocketId,
    pub handshook: bool,
    pub client_id: String,
}

/// The session's response to one frame: `t` is the session after `s`
/// received `input`, and `a` is what the connection does next.
pub open spec fn ipc_transition(s: IpcSession, input: IpcInput, t: IpcSession, a: IpcAction) -> bool {
    match input {
        IpcInput::Handshake(parsed) => {
            if s.handshook {
                // A second handshake is ignored.
                a is Continue && t == s
            } else {
                match parsed {
                    None => a is Fail && t == s,
                    Some(h) => if h.v != 1 {
                        &&& t == s
                        &&& a matches IpcAction::CloseWith { code, message }
                        &&& code == CloseCode::Unsupported
                        &&& message@ == "Invalid version"@
                    } else {
                        &&& t.socket_id == s.socket_id
                        &&& t.handshook
                        &&& t.client_id == h.client_id
                        &&& a matches IpcAction::Connect(ev)
                        &&& ev == TransportEvent::Connected {
                            socket_id: s.socket_id,
                            client_id: h.client_id,
                        }
                    },
                }
            }
        },
        IpcInput::Frame(parsed) => {
            &&& t == s
            &&& if !s.handshook {
                // Commands before the handshake are ignored.
                a is Continue
            } else {
                match parsed {
                    None => a is Fail,
                    Some(cmd) => a == IpcAction::Forward(
                        TransportEvent::Message { socket_id: s.socket_id, command: cmd },
                    ),
                }
            }
        },
        IpcInput::Ping(data) => {
            &&& t == s
            &&& a matches IpcAction::Reply(bytes)
            &&& bytes@ == frame_bytes(IpcOpcode::Pong, data@)
        },
        IpcInput::Pong => a is Continue && t == s,
        IpcInput::Close => a is End && t == s,
    }
}

/// The handshake: before it, a version-1 handshake connects the session
/// under the handshake's client id and reports the connection; another
/// version closes the connection with "Invalid version" (code Unsupported);
/// an unreadable one fails the connection. After it, a second handshake is
/// ignored.
pub proof fn law_ipc_handshake(s: IpcSession, parsed: Option<Handshake>, t: IpcSession, a: IpcAction)
    requires
        ipc_transition(s, IpcInput::Handshake(parsed), t, a),
    ensures
        s.handshook ==> a is Continue && t == s,
        !s.handshook && parsed is None ==> a is Fail && t == s,
        parsed matches Some(h) ==> (!s.handshook && h.v == 1 ==> {
            &&& t.handshook
            &&& t.socket_id == s.socket_id
            &&& t.client_id == h.client_id
            &&& a == IpcAction::Connect(
                TransportEvent::Connected { socket_id: s.socket_id, client_id: h.client_id },
            )
        }),
        parsed matches Some(h) ==> (!s.handshook && h.v != 1 ==> {
            &&& t == s
            &&& a matches IpcAction::CloseWith { code, message }
            &&& code == CloseCode::Unsupported
            &&& message@ == "Invalid version"@
        }),
{
}

/// Command frames: before the handshake they are ignored; after it each
/// readable command is forwarded to the server as a message of this socket,
/// and an unreadable one fails the connection. Frames never change the
/// session. A close frame ends the session and a pong is ignored.
pub proof fn law_ipc_frames(s: IpcSession, input: IpcInput, t: IpcSession, a: IpcAction)
    requires
        ipc_transition(s, input, t, a),
    ensures
        input is Frame ==> t == s,
        input is Frame && !s.handshook ==> a is Continue,
        input matches IpcInput::Frame(Some(cmd)) ==> (s.handshook ==> a == IpcAction::Forward(
            TransportEvent::Message { socket_id: s.socket_id, command: cmd },
        )),
        input matches IpcInput::Frame(None) && s.handshook ==> a is Fail,
        input is Close ==> a is End && t == s,
        input is Pong ==> a is Continue && t == s,
{
}

/// A ping is always answered with a pong carrying the same payload, before
/// or after the handshake, and leaves the session as it was: the reply is
/// the opcode 4 and the payload length as little-endian `u32`s, then the
/// payload.
pub proof fn law_ping_answered_with_pong(s: IpcSession, data: Vec<u8>, t: IpcSession, a: IpcAction)
    requires
        data@.len() < 0x1_0000_0000,
        ipc_transition(s, IpcInput::Ping(data), t, a),
    ensures
        t == s,
        a matches IpcAction::Reply(bytes) && {
            &&& bytes@.len() == data@.len() + 8
            &&& bytes@[0] == 4 && bytes@[1] == 0 && bytes@[2] == 0 && bytes@[3] == 0
            &&& bytes@[4] + 256 * bytes@[5] + 65536 * bytes@[6] + 16777216 * bytes@[7]
                == data@.len()
            &&& bytes@.skip(8) == data@
        },
{
    let n = data@.len() as u32;
    assert((n & 0xff) + 256 * ((n >> 8u32) & 0xff) + 65536 * ((n >> 16u32) & 0xff) + 16777216 * (
    (n >> 24u32) & 0xff) == n) by (bit_vector);
    assert((4u32 & 0xff) == 4 && ((4u32 >> 8u32) & 0xff) == 0 && ((4u32 >> 16u32) & 0xff) == 0 && (
    (4u32 >> 24u32) & 0xff) == 0) by (bit_vector);
    assert((n & 0xff) <= 0xff && ((n >> 8u32) & 0xff) <= 0xff && ((n >> 16u32) & 0xff) <= 0xff && (
    (n >> 24u32) & 0xff) <= 0xff) by (bit_vector);
    let bytes = a->Reply_0;
    let lo = le_bytes(4);
    let lb = le_bytes(n);
    assert(bytes@ == lo + lb + data@);
    assert(bytes@[0] == lo[0] && bytes@[1] == lo[1] && bytes@[2] == lo[2] && bytes@[3] == lo[3]);
    assert(bytes@[4] == lb[0] && bytes@[5] == lb[1] && bytes@[6] == lb[2] && bytes@[7] == lb[3]);
    assert(bytes@.skip(8) =~= data@);
}

impl IpcSession {
    /// A fresh session that has not shaken hands.
    pub fn new(socket_id: SocketId) -> (r: Self)
        ensures
            r.socket_id == socket_id,
            !r.handshook,
            r.client_id@.len() == 0,
    {
        IpcSession { socket_id, handshook: false, client_id: String::new() }
    }

    /// Handle one frame from the client.
    pub fn on_input(&mut self, input: IpcInput) -> (action: IpcAction)
        ensures
            ipc_transition(*old(self), input, *final(self), action),
    {
        match input {
            IpcInput::Handshake(parsed) => {
                if self.handshook {
                    return IpcAction::Continue;
                }
                match parsed {
                    None => IpcAction::Fail,
                    Some(h) => {
                        if h.v != 1 {
                            IpcAction::CloseWith {
                                code: CloseCode::Unsupported,
                                message: String::from_str("Invalid version"),
                            }
                        } else {
                            let client_id = h.client_id;
                            self.client_id = client_id.clone();
                            self.handshook = true;
                            IpcAction::Connect(
                                TransportEvent::Connected { socket_id: self.socket_id, client_id },
                            )
                        }
                    },
                }
            },
            IpcInput::Frame(parsed) => {
                if !self.handshook {
                    return IpcAction::Continue;
                }
                match parsed {
                    None => IpcAction::Fail,
                    Some(command) => IpcAction::Forward(
                        TransportEvent::Message { socket_id: self.socket_id, command },
                    ),
                }
            },
            IpcInput::Ping(data) => IpcAction::Reply(encode_message(IpcOpcode::Pong, data.as_slice())),
            IpcInput::Pong => IpcAction::Continue,
            IpcInput::Close => IpcAction::End,
        }
    }
}

} // verus!
