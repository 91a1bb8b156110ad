//! Wire formats of the activity bridge: JSON (arRPC-compatible) and MessagePack.

use vstd::prelude::*;
use crate::text::{chars_of, contains, has_substring};

verus! {

/// Protocol format.
#[derive(Debug, Clone, Copy, PartialEq, Eq, Structural)]
pub enum Protocol {
    /// JSON format (arRPC-compatible).
    Json,
    /// MessagePack format.
    MsgPack,
}

/// The protocol a message is in, judged by its first byte: JSON messages
/// start with `{` or `[`; an empty message counts as JSON.
pub open spec fn detected_protocol(data: Seq<u8>) -> Protocol {
    if data.len() == 0 || data[0] == 0x7bu8 || data[0] == 0x5bu8 {
        Protocol::Json
    } else {
        Protocol::MsgPack
    }
}

/// The protocol that a connection's query string asks for, if any.
pub open spec fn query_protocol(query: Seq<char>) -> Option<Protocol> {
    if has_substring(query, "format=msgpack"@) || has_substring(query, "format=messagepack"@) {
        Some(Protocol::MsgPack)
    } else if has_substring(query, "format=json"@) {
        Some(Protocol::Json)
    } else {
        None
    }
}

impl Protocol {
    /// Detect the protocol from the first byte of a message.
    pub fn detect(data: &[u8]) -> (r: Self)
        ensures
            r == detected_protocol(data@),
    {
        if data.len() == 0 {
            return Protocol::Json;
        }
        let first = data[0];
        if first == 0x7bu8 || first == 0x5bu8 {
            Protocol::Json
        } else {
            Protocol::MsgPack
        }
    }

    /// Parse the protocol from a query string.
    pub fn from_query(query: &str) -> (r: Option<Self>)
        ensures
            r == query_protocol(query@),
    {
        let q = chars_of(query);
        let msgpack = chars_of("format=msgpack");
        let messagepack = chars_of("format=messagepack");
        let json = chars_of("format=json");
        if contains(&q, &msgpack) || contains(&q, &messagepack) {
            Some(Protocol::MsgPack)
        } else if contains(&q, &json) {
            Some(Protocol::Json)
        } else {
            None
        }
    }
}

/// The protocol of a bridge connection: the one its query string asks for,
/// else the default of the port it came in on.
pub open spec fn chosen_protocol(default: Protocol, query: Option<Seq<char>>) -> Protocol {
    match query {
        Some(q) => match query_protocol(q) {
            Some(p) => p,
            None => default,
        },
        None => default,
    }
}

/// A bridge connection keeps the default protocol of its port unless its
/// query string names a format: with no query string, or one that contains
/// none of `format=msgpack`, `format=messagepack` and `format=json`, the
/// port's default is used. A query naming MessagePack gets MessagePack, and
/// one naming only JSON gets JSON, whatever the port.
pub proof fn law_connection_protocol(default: Protocol, q: Seq<char>)
    ensures
        chosen_protocol(default, None) == default,
        !has_substring(q, "format=msgpack"@) && !has_substring(q, "format=messagepack"@)
            && !has_substring(q, "format=json"@) ==> chosen_protocol(default, Some(q)) == default,
        has_substring(q, "format=msgpack"@) ==> chosen_protocol(default, Some(q))
            == Protocol::MsgPack,
        has_substring(q, "format=messagepack"@) ==> chosen_protocol(default, Some(q))
            == Protocol::MsgPack,
        !has_substring(q, "format=msgpack"@) && !has_substring(q, "format=messagepack"@)
            && has_substring(q, "format=json"@) ==> chosen_protocol(default, Some(q))
            == Protocol::Json,
{
}

impl Protocol {
    /// The protocol of a bridge connection on a port whose default is
    /// `default`, given the query string of its upgrade request (if any).
    pub fn for_connection(default: Protocol, query: Option<&str>) -> (r: Protocol)
        ensures
            query is None ==> r == default,
            r == chosen_protocol(
                default,
                match query {
                    Some(q) => Some(q@),
                    None => None,
                },
            ),
    {
        match query {
            Some(q) => match Protocol::from_query(q) {
                Some(p) => p,
                None => default,
            },
            None => default,
        }
    }

    /// Whether messages in this protocol go out as text frames (JSON) rather
    /// than binary frames (MessagePack).
    pub fn uses_text_frames(self) -> (r: bool)
        ensures
            r == (self == Protocol::Json),
    {
        match self {
            Protocol::Json => true,
            Protocol::MsgPack => false,
        }
    }
}

/// Codec for the JSON (arRPC-compatible) bridge format.
#[derive(Debug, Clone, Copy)]
pub struct JsonCodec;

/// Codec for the MessagePack bridge format.
#[derive(Debug, Clone, Copy)]
pub struct MsgPackCodec;

} // verus!
