//! WebSocket transport logic: origin checks, query strings and the
//! per-connection session state machine.

use vstd::prelude::*;
use crate::text::{
    chars_eq, chars_of, find_char, first_index, lemma_first_index, slice_chars, split, split_on, string_of,
    views_of,
};
use crate::keyed::{distinct_keys, keyed_map, lemma_keyed_map_absent, lemma_keyed_map_update};
use crate::transports::TransportEvent;
use crate::types::{RpcCommand, SocketId};

verus! {

/// First port of the WebSocket RPC port range.
pub const PORT_RANGE_START: u16 = 6463;

/// Last port of the WebSocket RPC port range.
pub const PORT_RANGE_END: u16 = 6472;

// ---------------------------------------------------------------------------
// Origins
// ---------------------------------------------------------------------------

/// The origins that WebSocket clients are expected to come from.
pub open spec fn allowed_origin(origin: Seq<char>) -> bool {
    ||| origin == "https://discord.com"@
    ||| origin == "https://ptb.discord.com"@
    ||| origin == "https://canary.discord.com"@
}

/// Whether `origin` is one of the allowed origins.
pub fn is_allowed_origin(origin: &str) -> (r: bool)
    ensures
        r == allowed_origin(origin@),
{
    let o = chars_of(origin);
    let a = chars_of("https://discord.com");
    let b = chars_of("https://ptb.discord.com");
    let c = chars_of("https://canary.discord.com");
    chars_eq(&o, &a) || chars_eq(&o, &b) || chars_eq(&o, &c)
}

/// Whether the handshake of a connection with this `Origin` header goes
/// on: an empty origin or an allowed one is accepted, any other origin is
/// refused before the connection is reported.
pub fn accept_origin(origin: &str) -> (r: bool)
    ensures
        r == !(origin@.len() > 0 && !allowed_origin(origin@)),
{
    let o = chars_of(origin);
    o.len() == 0 || is_allowed_origin(origin)
}

// ---------------------------------------------------------------------------
// Query strings
// ---------------------------------------------------------------------------

/// A `key=value` piece: the text before its first `=` and the text after;
/// a piece without `=` has none.
pub open spec fn query_pair(p: Seq<char>) -> Option<(Seq<char>, Seq<char>)> {
    match first_index(p, '=') {
        Some(i) => Some((p.take(i), p.skip(i + 1))),
        None => None,
    }
}

/// The pairs of a list of `&`-separated pieces, in order.
pub open spec fn pairs_of(parts: Seq<Seq<char>>) -> Seq<(Seq<char>, Seq<char>)>
    decreases parts.len(),
{
    if parts.len() == 0 {
        Seq::empty()
    } else {
        let init = pairs_of(parts.drop_last());
        match query_pair(parts.last()) {
            Some(kv) => init.push(kv),
            None => init,
        }
    }
}

/// The pairs of a query string, in order.
pub open spec fn query_pairs(q: Seq<char>) -> Seq<(Seq<char>, Seq<char>)> {
    pairs_of(split_on(q, '&'))
}

/// The character sequences of a list of string pairs.
pub open spec fn pair_views(v: Seq<(String, String)>) -> Seq<(Seq<char>, Seq<char>)> {
    v.map_values(|p: (String, String)| (p.0@, p.1@))
}

/// Parse a query string into its key/value pairs: every `&`-separated piece
/// that holds a `=` gives the key before its first `=` and the value after
/// it; of pieces with the same key the last one counts.
pub fn parse_query(query: &str) -> (r: Vec<(String, String)>)
    ensures
        distinct_keys(pair_views(r@)),
        keyed_map(pair_views(r@)) == keyed_map(query_pairs(query@)),
{
    let q = chars_of(query);
    let parts = split(&q, '&');
    let ghost all = views_of(parts@);
    let mut out: Vec<(String, String)> = Vec::new();
    let mut k: usize = 0;
    assert(all.take(0) =~= Seq::<Seq<char>>::empty());
    while k < parts.len()
        invariant
            k <= parts.len(),
            all == views_of(parts@),
            all == split_on(query@, '&'),
            distinct_keys(pair_views(out@)),
            keyed_map(pair_views(out@)) == keyed_map(pairs_of(all.take(k as int))),
        decreases parts.len() - k,
    {
        let part = &parts[k];
        assert(all.take(k + 1).drop_last() =~= all.take(k as int));
        assert(all.take(k + 1).last() == part@);
        match find_char(part, '=') {
            Some(i) => {
                proof {
                    lemma_first_index(part@, '=');
                }
                let key = string_of(&slice_chars(part, 0, i));
                let value = string_of(&slice_chars(part, i + 1, part.len()));
                assert(key@ =~= part@.take(i as int));
                assert(value@ =~= part@.skip(i + 1));
                let ghost before = pair_views(out@);
                assert(query_pair(part@) == Some((key@, value@)));
                assert(pairs_of(all.take(k + 1)) == pairs_of(all.take(k as int)).push(
                    (key@, value@),
                ));
                assert(pairs_of(all.take(k as int)).push((key@, value@)).drop_last() =~= pairs_of(
                    all.take(k as int),
                ));
                assert(keyed_map(pairs_of(all.take(k + 1))) == keyed_map(pairs_of(all.take(k as int))).insert(
                    key@,
                    value@,
                ));
                // Look for an earlier pair with the same key.
                let mut j: usize = 0;
                let mut found: Option<usize> = None;
                while j < out.len()
                    invariant_except_break
                        found is None,
                    invariant
                        j <= out.len(),
                        before == pair_views(out@),
                        forall|m: int| 0 <= m < j ==> before[m].0 != key@,
                    ensures
                        match found {
                            Some(f) => f < out.len() && before[f as int].0 == key@,
                            None => forall|m: int| 0 <= m < out.len() ==> before[m].0 != key@,
                        },
                    decreases out.len() - j,
                {
                    if out[j].0 == key {
                        found = Some(j);
                        break;
                    }
                    j += 1;
                }
                match found {
                    Some(j) => {
                        proof {
                            lemma_keyed_map_update(before, j as int, value@);
                        }
                        out.set(j, (key, value));
                        assert(pair_views(out@) =~= before.update(j as int, (before[j as int].0, value@)));
                    },
                    None => {
                        proof {
                            lemma_keyed_map_absent(before, key@);
                        }
                        let ghost kv = (key@, value@);
                        out.push((key, value));
                        assert(pair_views(out@) =~= before.push(kv));
                        assert(before.push(kv).drop_last() =~= before);
                    },
                }
            },
            None => {
                assert(query_pair(part@) is None);
                assert(pairs_of(all.take(k + 1)) == pairs_of(all.take(k as int)));
            },
        }
        k += 1;
    }
    assert(all.take(parts.len() as int) =~= all);
    out
}

// ---------------------------------------------------------------------------
// Session state machine
// ---------------------------------------------------------------------------

/// A text message from a WebSocket client that is valid JSON, with the
/// parts the server reads from it.
#[derive(Debug)]
pub struct WsText {
    /// The `client_id` field, when it is a string.
    pub client_id: Option<String>,
    /// The message read as an RPC command, when it has that shape.
    pub command: Option<RpcCommand>,
}

/// Per-connection state of a WebSocket client.
#[derive(Debug)]
pub struct WsSession {
    pub socket_id: SocketId,
    pub connected: bool,
    pub client_id: String,
}

/// The session's response to a text message: `t` is the session after `s`
/// received `text` (`None` when it is not valid JSON), and `events` are the
/// events reported to the server, in order.
pub open spec fn ws_transition(
    s: WsSession,
    text: Option<WsText>,
    t: WsSession,
    events: Seq<TransportEvent>,
) -> bool {
    match text {
        None => t == s && events.len() == 0,
        Some(msg) => {
            let first_events: Seq<TransportEvent> = if s.connected {
                Seq::empty()
            } else {
                seq![
                    TransportEvent::Connected {
                        socket_id: s.socket_id,
                        client_id: t.client_id,
                    },
                ]
            };
            &&& t.socket_id == s.socket_id
            &&& t.connected
            &&& if s.connected {
                t.client_id == s.client_id
            } else {
                match msg.client_id {
                    Some(cid) => t.client_id == cid,
                    None => t.client_id == s.client_id,
                }
            }
            &&& events == match msg.command {
                Some(cmd) => first_events.push(
                    TransportEvent::Message { socket_id: s.socket_id, command: cmd },
                ),
                None => first_events,
            }
        },
    }
}

/// Every command a client sends is forwarded, whether or not the session
/// was connected before: a valid message carrying command `c` reports
/// `Message { socket_id, command: c }` as its last event. A connected
/// session reports that event alone; a session's first message is also
/// announced by one `Connected` event before it.
pub proof fn law_ws_commands_forwarded(
    s: WsSession,
    msg: WsText,
    c: RpcCommand,
    t: WsSession,
    events: Seq<TransportEvent>,
)
    requires
        msg.command == Some(c),
        ws_transition(s, Some(msg), t, events),
    ensures
        events.len() >= 1,
        events.last() == (TransportEvent::Message { socket_id: s.socket_id, command: c }),
        s.connected ==> events == seq![
            TransportEvent::Message { socket_id: s.socket_id, command: c },
        ],
        !s.connected ==> events.len() == 2 && events[0] is Connected,
        t.connected,
        t.socket_id == s.socket_id,
{
}

/// A session's first valid message connects it: the client id is the
/// message's `client_id` when it has one (else the session's, empty for a
/// fresh session), and the first event reports the connection with that
/// id. Once connected, the client id no longer changes. A message that is
/// not valid JSON changes nothing and reports nothing.
pub proof fn law_ws_connection(s: WsSession, text: Option<WsText>, t: WsSession, events: Seq<TransportEvent>)
    requires
        ws_transition(s, text, t, events),
    ensures
        text is None ==> t == s && events.len() == 0,
        text matches Some(msg) ==> (!s.connected ==> {
            let cid = match msg.client_id {
                Some(c) => c,
                None => s.client_id,
            };
            &&& t.client_id == cid
            &&& events.len() >= 1
            &&& events[0] == (TransportEvent::Connected { socket_id: s.socket_id, client_id: cid })
        }),
        text is Some && s.connected ==> t.client_id == s.client_id && t.connected,
{
}

/// A valid message without a command reports nothing to a connected
/// session, and only the connection to a fresh one.
pub proof fn law_ws_message_without_command(
    s: WsSession,
    msg: WsText,
    t: WsSession,
    events: Seq<TransportEvent>,
)
    requires
        msg.command is None,
        ws_transition(s, Some(msg), t, events),
    ensures
        s.connected ==> events.len() == 0,
        !s.connected ==> events.len() == 1 && events[0] is Connected,
{
}

impl WsSession {
    /// A fresh session that has not received a message.
    pub fn new(socket_id: SocketId) -> (r: Self)
        ensures
            r.socket_id == socket_id,
            !r.connected,
            r.client_id@.len() == 0,
    {
        WsSession { socket_id, connected: false, client_id: String::new() }
    }

    /// Handle one text message from the client.
    pub fn on_text(&mut self, text: Option<WsText>) -> (events: Vec<TransportEvent>)
        ensures
            ws_transition(*old(self), text, *final(self), events@),
    {
        let mut events: Vec<TransportEvent> = Vec::new();
        match text {
            None => {},
            Some(msg) => {
                if !self.connected {
                    match msg.client_id {
                        Some(cid) => {
                            self.client_id = cid;
                        },
                        None => {},
                    }
                    self.connected = true;
                    events.push(
                        TransportEvent::Connected {
                            socket_id: self.socket_id,
                            client_id: self.client_id.clone(),
                        },
                    );
                }
                match msg.command {
                    Some(command) => {
                        events.push(TransportEvent::Message { socket_id: self.socket_id, command });
                    },
                    None => {},
                }
            },
        }
        events
    }
}

} // verus!
