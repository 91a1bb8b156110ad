//! The RPC server's decisions: the state of connected clients, and the
//! replies and bridge updates each transport event calls for.

use vstd::prelude::*;
use crate::config::Config;
use crate::process::DetectedGame;
use crate::text::{
    chars_eq, chars_of, decimal_digits, decimal_string, digit_count, lemma_decimal_digits_above,
    lemma_decimal_digits_below, lemma_decimal_digits_exact, lemma_decimal_digits_len, pow10,
    signed_decimal_len, signed_digit_count,
};
use crate::transports::TransportEvent;
use crate::types::{
    clone_opt_string, metadata_model, Activity, ActivityAck, ActivityMessage,
    ActivityMessageModel, ActivityModel, Button, DiscordConfig, MetadataEntry, MetadataModel,
    MetadataValue, Pid, ReadyData, ResponseData, RpcCommand, RpcResponse, SocketId, Timestamps,
    User,
};
use std::collections::HashMap;

verus! {

broadcast use vstd::std_specs::hash::group_hash_axioms;

// ---------------------------------------------------------------------------
// Timestamps
// ---------------------------------------------------------------------------

/// The number of decimal digits of the current time in milliseconds; 13
/// when the clock reads before the epoch.
pub open spec fn now_digits(now_ms: Option<u128>) -> nat {
    match now_ms {
        Some(ms) => decimal_digits(ms as nat).len(),
        None => 13,
    }
}

/// A timestamp is taken to be in seconds, and scaled to milliseconds, when
/// it has more than two digits fewer than the current time in milliseconds.
pub open spec fn scales_up(t: i64, now_len: nat) -> bool {
    now_len - signed_decimal_len(t as int) > 2
}

/// A timestamp in milliseconds.
pub open spec fn scaled_stamp(t: i64, now_len: nat) -> i64 {
    if scales_up(t, now_len) {
        (t * 1000) as i64
    } else {
        t
    }
}

/// A timestamp can be normalised without overflow: it is not longer than
/// the current time, and a timestamp that is scaled fits after scaling.
pub open spec fn stamp_ok(t: Option<i64>, now_len: nat) -> bool {
    match t {
        Some(x) => {
            &&& signed_decimal_len(x as int) <= now_len
            &&& scales_up(x, now_len) ==> i64::MIN <= x * 1000 <= i64::MAX
        },
        None => true,
    }
}

/// The timestamps of an activity can be normalised without overflow.
pub open spec fn timestamps_ok(ts: Option<Timestamps>, now_len: nat) -> bool {
    match ts {
        Some(t) => stamp_ok(t.start, now_len) && stamp_ok(t.end, now_len),
        None => true,
    }
}

/// Timestamps in milliseconds.
pub open spec fn normalized_timestamps(ts: Timestamps, now_len: nat) -> Timestamps {
    Timestamps {
        start: match ts.start {
            Some(x) => Some(scaled_stamp(x, now_len)),
            None => None,
        },
        end: match ts.end {
            Some(x) => Some(scaled_stamp(x, now_len)),
            None => None,
        },
    }
}

/// A timestamp given to SET_ACTIVITY, in milliseconds, when the clock (in
/// milliseconds) has `clock_digits` digits: a non-negative `t` with
/// `1000 * t` below `10^clock_digits`, or a negative `t` with
/// `-10000 * t` below it, is in seconds and is multiplied by 1000; any
/// other timestamp is kept.
pub open spec fn millis_of(t: i64, clock_digits: nat) -> int {
    if (0 <= t && t * 1000 < pow10(clock_digits)) || (t < 0 && -t * 10000 < pow10(clock_digits)) {
        t * 1000
    } else {
        t as int
    }
}

/// Each timestamp that was given is published in milliseconds, and none
/// that was not given appears.
pub open spec fn stamps_in_millis(given: Timestamps, published: Timestamps, clock_digits: nat) -> bool {
    &&& match given.start {
        Some(t) => published.start matches Some(v) && v == millis_of(t, clock_digits),
        None => published.start is None,
    }
    &&& match given.end {
        Some(t) => published.end matches Some(v) && v == millis_of(t, clock_digits),
        None => published.end is None,
    }
}

proof fn lemma_pow10_mono(a: nat, b: nat)
    requires
        a <= b,
    ensures
        pow10(a) <= pow10(b),
    decreases b,
{
    if a < b {
        lemma_pow10_mono(a, (b - 1) as nat);
    }
}

proof fn lemma_pow10_shift(m: nat)
    ensures
        pow10(m + 3) == 1000 * pow10(m),
        pow10(m + 4) == 10000 * pow10(m),
{
    assert(pow10(m + 1) == 10 * pow10(m));
    assert(pow10(m + 2) == 10 * pow10(m + 1));
    assert(pow10(m + 3) == 10 * pow10(m + 2));
    assert(pow10(m + 4) == 10 * pow10(m + 3));
}

/// Scaling a timestamp by its digit count agrees with the numeric bounds
/// of `millis_of`.
proof fn lemma_scaled_stamp_millis(t: i64, d: nat)
    requires
        1 <= d <= 18,
    ensures
        scaled_stamp(t, d) as int == millis_of(t, d),
{
    assert(pow10(4) == 10000 && pow10(3) == 1000 && pow10(18) == 1_000_000_000_000_000_000) by {
        reveal_with_fuel(pow10, 19);
    }
    lemma_pow10_mono(d, 18);
    if t == 0 {
    } else if t > 0 {
        let n = t as nat;
        lemma_decimal_digits_len(n);
        if d >= 4 {
            let m = (d - 3) as nat;
            lemma_pow10_shift(m);
            if n < pow10(m) {
                lemma_decimal_digits_below(n, m);
            } else {
                lemma_decimal_digits_above(n, m);
            }
        } else {
            lemma_pow10_mono(d, 3);
        }
    } else {
        let n = (-t) as nat;
        lemma_decimal_digits_len(n);
        if d >= 5 {
            let m = (d - 4) as nat;
            lemma_pow10_shift(m);
            if n < pow10(m) {
                lemma_decimal_digits_below(n, m);
            } else {
                lemma_decimal_digits_above(n, m);
            }
        } else {
            lemma_pow10_mono(d, 4);
        }
    }
}

/// SET_ACTIVITY publishes its timestamps in milliseconds: with a clock of
/// `d` digits (in milliseconds), a start or an end given in seconds (more
/// than two digits shorter than the clock) is multiplied by 1000, and a
/// start or end given in milliseconds is kept; start and end follow the
/// same rule, and an activity without timestamps is published without
/// them. The reply carries the same timestamps.
pub proof fn law_set_activity_timestamps_in_millis(
    c: Map<SocketId, ClientState>,
    socket_id: SocketId,
    command: RpcCommand,
    now_ms: u128,
    d: nat,
    e: Map<SocketId, ClientState>,
    actions: Seq<ServerAction>,
)
    requires
        1 <= d <= 18,
        pow10((d - 1) as nat) <= now_ms < pow10(d),
        command.cmd@ == "SET_ACTIVITY"@,
        command.args.activity_args matches Some(args) && args.activity is Some,
        event_effect(
            c,
            TransportEvent::Message { socket_id, command },
            now_digits(Some(now_ms)),
            e,
            actions,
        ),
    ensures
        ({
            let given = command.args.activity_args.unwrap().activity.unwrap().timestamps;
            &&& actions[0] matches ServerAction::Publish(m)
            &&& m.activity matches Some(p)
            &&& match given {
                Some(g) => p.timestamps matches Some(pt) && stamps_in_millis(g, pt, d),
                None => p.timestamps is None,
            }
            &&& actions[1] matches ServerAction::Reply { socket_id: s, response: r }
            &&& r.data matches Some(ResponseData::Activity(ack))
            &&& ack.timestamps == p.timestamps
        }),
{
    lemma_decimal_digits_exact(now_ms as nat, d);
    let given = command.args.activity_args.unwrap().activity.unwrap().timestamps;
    if given is Some {
        let g = given.unwrap();
        if g.start is Some {
            lemma_scaled_stamp_millis(g.start.unwrap(), d);
        }
        if g.end is Some {
            lemma_scaled_stamp_millis(g.end.unwrap(), d);
        }
    }
}

fn scale_stamp(t: i64, now_len: usize) -> (r: i64)
    requires
        stamp_ok(Some(t), now_len as nat),
    ensures
        r == scaled_stamp(t, now_len as nat),
{
    let len = signed_digit_count(t);
    if now_len - len > 2 {
        t * 1000
    } else {
        t
    }
}

fn normalize_timestamps(ts: Timestamps, now_len: usize) -> (r: Timestamps)
    requires
        timestamps_ok(Some(ts), now_len as nat),
    ensures
        r == normalized_timestamps(ts, now_len as nat),
{
    let start = match ts.start {
        Some(x) => Some(scale_stamp(x, now_len)),
        None => None,
    };
    let end = match ts.end {
        Some(x) => Some(scale_stamp(x, now_len)),
        None => None,
    };
    Timestamps { start, end }
}

/// The number of digits of the current time in milliseconds.
pub fn current_digits(now_ms: Option<u128>) -> (r: usize)
    ensures
        r == now_digits(now_ms),
{
    match now_ms {
        Some(ms) => digit_count(ms),
        None => 13,
    }
}

/// Whether the timestamps of an activity can be normalised at time
/// `now_ms` without overflow.
pub fn timestamps_normalizable(activity: &Activity, now_ms: Option<u128>) -> (r: bool)
    ensures
        r == timestamps_ok(activity.timestamps, now_digits(now_ms)),
{
    let now_len = current_digits(now_ms);
    match activity.timestamps {
        Some(ts) => stamp_fits(ts.start, now_len) && stamp_fits(ts.end, now_len),
        None => true,
    }
}

fn stamp_fits(t: Option<i64>, now_len: usize) -> (r: bool)
    ensures
        r == stamp_ok(t, now_len as nat),
{
    match t {
        Some(x) => {
            let len = signed_digit_count(x);
            if len > now_len {
                false
            } else if now_len - len > 2 {
                -9_223_372_036_854_775 <= x && x <= 9_223_372_036_854_775
            } else {
                true
            }
        },
        None => true,
    }
}

// ---------------------------------------------------------------------------
// Activities
// ---------------------------------------------------------------------------

/// The metadata key under which the button URLs are recorded.
pub open spec fn button_urls_key() -> Seq<char> {
    "button_urls"@
}

/// The metadata entries whose key is not `key`, in order.
pub open spec fn without_key(m: Seq<(Seq<char>, MetadataModel)>, key: Seq<char>) -> Seq<
    (Seq<char>, MetadataModel),
>
    decreases m.len(),
{
    if m.len() == 0 {
        Seq::empty()
    } else {
        let init = without_key(m.drop_last(), key);
        if m.last().0 == key {
            init
        } else {
            init.push(m.last())
        }
    }
}

/// The URLs of a sequence of buttons.
pub open spec fn button_urls(bs: Seq<Button>) -> Seq<String> {
    bs.map_values(|b: Button| b.url)
}

/// The labels of a sequence of buttons.
pub open spec fn button_labels(bs: Seq<Button>) -> Seq<String> {
    bs.map_values(|b: Button| b.label)
}

/// The metadata with the button URLs recorded under `button_urls`
/// (replacing an earlier entry with that key).
pub open spec fn metadata_with_urls(m: Seq<(Seq<char>, MetadataModel)>, bs: Seq<Button>) -> Seq<
    (Seq<char>, MetadataModel),
> {
    without_key(m, button_urls_key()).push((button_urls_key(), MetadataModel::Urls(button_urls(bs))))
}

/// `p` is the activity `a` as the server publishes it for a client with id
/// `cid`: timestamps in milliseconds, button URLs in the metadata, the
/// client's id as application id, and flag 1 for an instance.
pub open spec fn prepared_activity(p: ActivityModel, a: ActivityModel, cid: Seq<char>, now_len: nat) -> bool {
    &&& p.application_id matches Some(s) && s@ == cid
    &&& p.name == a.name
    &&& p.state == a.state
    &&& p.details == a.details
    &&& p.timestamps == match a.timestamps {
        Some(ts) => Some(normalized_timestamps(ts, now_len)),
        None => None,
    }
    &&& p.assets == a.assets
    &&& p.party == a.party
    &&& p.buttons == a.buttons
    &&& p.instance == a.instance
    &&& p.activity_type == a.activity_type
    &&& p.flags == (if a.instance == Some(true) {
        1u32
    } else {
        a.flags
    })
    &&& p.metadata == match a.buttons {
        Some(bs) => metadata_with_urls(a.metadata, bs),
        None => a.metadata,
    }
}

/// `ack` is the reply data for the published activity `p`.
pub open spec fn ack_of(ack: ActivityAck, p: ActivityModel, cid: Seq<char>) -> bool {
    &&& ack.name@ == Seq::<char>::empty()
    &&& ack.application_id@ == cid
    &&& ack.activity_type == 0
    &&& ack.state == p.state
    &&& ack.details == p.details
    &&& ack.timestamps == p.timestamps
    &&& ack.assets == p.assets
    &&& ack.party == p.party
    &&& match p.buttons {
        Some(bs) => ack.buttons matches Some(labels) && labels@ == button_labels(bs),
        None => ack.buttons is None,
    }
}

fn button_urls_of(bs: &Vec<Button>) -> (r: Vec<String>)
    ensures
        r@ == button_urls(bs@),
{
    let mut out: Vec<String> = Vec::new();
    let mut i: usize = 0;
    while i < bs.len()
        invariant
            i <= bs.len(),
            out@ == button_urls(bs@).take(i as int),
        decreases bs.len() - i,
    {
        out.push(bs[i].url.clone());
        assert(out@ =~= button_urls(bs@).take(i + 1));
        i += 1;
    }
    assert(button_urls(bs@).take(bs.len() as int) =~= button_urls(bs@));
    out
}

fn button_labels_of(bs: &Vec<Button>) -> (r: Vec<String>)
    ensures
        r@ == button_labels(bs@),
{
    let mut out: Vec<String> = Vec::new();
    let mut i: usize = 0;
    while i < bs.len()
        invariant
            i <= bs.len(),
            out@ == button_labels(bs@).take(i as int),
        decreases bs.len() - i,
    {
        out.push(bs[i].label.clone());
        assert(out@ =~= button_labels(bs@).take(i + 1));
        i += 1;
    }
    assert(button_labels(bs@).take(bs.len() as int) =~= button_labels(bs@));
    out
}

fn with_button_urls(m: &Vec<MetadataEntry>, urls: Vec<String>) -> (r: Vec<MetadataEntry>)
    ensures
        metadata_model(r@) == without_key(metadata_model(m@), button_urls_key()).push(
            (button_urls_key(), MetadataModel::Urls(urls@)),
        ),
{
    let key = chars_of("button_urls");
    let ghost mm = metadata_model(m@);
    let mut out: Vec<MetadataEntry> = Vec::new();
    let mut i: usize = 0;
    assert(mm.take(0) =~= Seq::<(Seq<char>, MetadataModel)>::empty());
    assert(metadata_model(out@) =~= Seq::empty());
    while i < m.len()
        invariant
            i <= m.len(),
            mm == metadata_model(m@),
            key@ == button_urls_key(),
            metadata_model(out@) == without_key(mm.take(i as int), button_urls_key()),
        decreases m.len() - i,
    {
        assert(mm.take(i + 1).drop_last() =~= mm.take(i as int));
        assert(mm.take(i + 1).last() == m@[i as int]@);
        let k = chars_of(m[i].key.as_str());
        if !chars_eq(&k, &key) {
            let ghost prev = out@;
            let e = m[i].clone();
            out.push(e);
            assert(metadata_model(out@) =~= metadata_model(prev).push(e@));
        }
        i += 1;
    }
    assert(mm.take(m.len() as int) =~= mm);
    let ghost prev = out@;
    let entry = MetadataEntry { key: String::from_str("button_urls"), value: MetadataValue::Urls(urls) };
    out.push(entry);
    assert(metadata_model(out@) =~= metadata_model(prev).push(entry@));
    out
}

/// The activity as the server publishes it for client `client_id`.
fn prepare_activity(activity: Activity, client_id: String, now_len: usize) -> (r: Activity)
    requires
        timestamps_ok(activity.timestamps, now_len as nat),
    ensures
        prepared_activity(r@, activity@, client_id@, now_len as nat),
{
    let ghost a = activity@;
    let mut p = activity;
    match p.timestamps {
        Some(ts) => {
            p.timestamps = Some(normalize_timestamps(ts, now_len));
        },
        None => {},
    }
    match &p.buttons {
        Some(bs) => {
            let urls = button_urls_of(bs);
            p.metadata = with_button_urls(&p.metadata, urls);
        },
        None => {},
    }
    p.application_id = Some(client_id);
    match p.instance {
        Some(true) => {
            p.flags = 1;
        },
        _ => {},
    }
    p
}

/// The reply data for a published activity.
fn ack_for(p: &Activity) -> (r: ActivityAck)
    ensures
        ack_of(
            r,
            p@,
            match p.application_id {
                Some(s) => s@,
                None => Seq::empty(),
            },
        ),
{
    let application_id = match &p.application_id {
        Some(s) => s.clone(),
        None => String::new(),
    };
    let assets = match &p.assets {
        Some(a) => Some(a.clone()),
        None => None,
    };
    let party = match &p.party {
        Some(x) => Some(x.clone()),
        None => None,
    };
    let buttons = match &p.buttons {
        Some(bs) => Some(button_labels_of(bs)),
        None => None,
    };
    ActivityAck {
        name: String::new(),
        application_id,
        activity_type: 0,
        state: clone_opt_string(&p.state),
        details: clone_opt_string(&p.details),
        timestamps: p.timestamps,
        assets,
        party,
        buttons,
    }
}

// ---------------------------------------------------------------------------
// Responses
// ---------------------------------------------------------------------------

/// The READY dispatch: protocol version 1 with the default config and user.
pub open spec fn is_ready_response(r: RpcResponse) -> bool {
    &&& r.cmd@ == "DISPATCH"@
    &&& r.data matches Some(ResponseData::Ready(d))
    &&& d.v == 1
    &&& d.config.cdn_host@ == "cdn.discordapp.com"@
    &&& d.config.api_endpoint@ == "//discord.com/api"@
    &&& d.config.environment@ == "production"@
    &&& d.user.id@ == "1045800378228281345"@
    &&& d.user.username@ == "rsrpc"@
    &&& d.user.discriminator@ == "0"@
    &&& d.user.global_name@ == "rsRPC"@
    &&& d.user.avatar@ == "cfefa4d9839fb4bdf030f91c2a13e95c"@
    &&& d.user.avatar_decoration_data is None
    &&& !d.user.bot
    &&& d.user.flags == 0
    &&& d.user.premium_type == 0
    &&& r.evt matches Some(e) && e@ == "READY"@
    &&& r.nonce is None
}

/// Create the READY dispatch sent to a client that connects.
pub fn create_ready_response() -> (r: RpcResponse)
    ensures
        is_ready_response(r),
{
    let ready = ReadyData { v: 1, config: DiscordConfig::default(), user: User::default() };
    RpcResponse {
        cmd: String::from_str("DISPATCH"),
        data: Some(ResponseData::Ready(ready)),
        evt: Some(String::from_str("READY")),
        nonce: None,
    }
}

/// A reply that repeats the command's name and nonce.
pub open spec fn echoes(r: RpcResponse, command: RpcCommand) -> bool {
    r.cmd == command.cmd && r.nonce == command.nonce
}

fn cmd_is(cmd: &String, name: &str) -> (r: bool)
    ensures
        r == (cmd@ == name@),
{
    let a = chars_of(cmd.as_str());
    let b = chars_of(name);
    chars_eq(&a, &b)
}

// ---------------------------------------------------------------------------
// Server state
// ---------------------------------------------------------------------------

/// What the server knows of a connected client.
#[derive(Debug)]
pub struct ClientState {
    pub client_id: String,
    pub last_pid: Option<Pid>,
}

/// What the server does in response to an event.
#[derive(Debug)]
pub enum ServerAction {
    /// Send a response to a client.
    Reply { socket_id: SocketId, response: RpcResponse },
    /// Publish an activity message on the bridge.
    Publish(ActivityMessage),
}

/// The id of the client on a socket; empty for an unknown socket.
pub open spec fn client_id_view(clients: Map<SocketId, ClientState>, socket_id: SocketId) -> Seq<
    char,
> {
    if clients.contains_key(socket_id) {
        clients[socket_id].client_id@
    } else {
        Seq::empty()
    }
}

/// The clients after a SET_ACTIVITY with process `pid` on `socket_id`: a
/// known client records the process id.
pub open spec fn with_last_pid(clients: Map<SocketId, ClientState>, socket_id: SocketId, pid: Pid) -> Map<
    SocketId,
    ClientState,
> {
    if clients.contains_key(socket_id) {
        clients.insert(
            socket_id,
            ClientState { client_id: clients[socket_id].client_id, last_pid: Some(pid) },
        )
    } else {
        clients
    }
}

/// A client that connects and then disconnects leaves the client table as
/// it was without that socket, and its disconnect clears the socket's
/// activity on the bridge with process id 0 (it never set an activity).
pub proof fn law_connect_then_disconnect(
    c: Map<SocketId, ClientState>,
    socket_id: SocketId,
    client_id: String,
    n1: nat,
    n2: nat,
    d: Map<SocketId, ClientState>,
    e: Map<SocketId, ClientState>,
    a1: Seq<ServerAction>,
    a2: Seq<ServerAction>,
)
    requires
        event_effect(c, TransportEvent::Connected { socket_id, client_id }, n1, d, a1),
        event_effect(d, TransportEvent::Disconnected { socket_id }, n2, e, a2),
    ensures
        e == c.remove(socket_id),
        a2.len() == 1,
        a2[0] matches ServerAction::Publish(m) && is_clear_message(m@, 0, socket_id),
{
    assert(e =~= c.remove(socket_id));
}

/// After a connected client sets or clears its activity, its disconnect
/// clears the activity on the bridge with the process id it gave last.
pub proof fn law_disconnect_after_set_activity(
    c: Map<SocketId, ClientState>,
    socket_id: SocketId,
    command: RpcCommand,
    n1: nat,
    n2: nat,
    d: Map<SocketId, ClientState>,
    e: Map<SocketId, ClientState>,
    a1: Seq<ServerAction>,
    a2: Seq<ServerAction>,
)
    requires
        c.contains_key(socket_id),
        command.cmd@ == "SET_ACTIVITY"@,
        command.args.activity_args is Some,
        command_effect(c, socket_id, command, n1, d, a1),
        event_effect(d, TransportEvent::Disconnected { socket_id }, n2, e, a2),
    ensures
        e == c.remove(socket_id),
        a2.len() == 1,
        a2[0] matches ServerAction::Publish(m) && is_clear_message(
            m@,
            command.args.activity_args.unwrap().pid,
            socket_id,
        ),
{
    assert(e =~= c.remove(socket_id));
}

/// The process id that a command leaves on record for its client: the one a
/// parsed SET_ACTIVITY gives, else none.
pub open spec fn command_pid(command: RpcCommand) -> Option<Pid> {
    if command.cmd@ == "SET_ACTIVITY"@ {
        match command.args.activity_args {
            Some(args) => Some(args.pid),
            None => None,
        }
    } else {
        None
    }
}

/// A client's session: it connects and is answered READY, sends one
/// command, and disconnects. Its disconnect clears its activity on the
/// bridge with the process id of a parsed SET_ACTIVITY (0 for any other
/// command), and the client table ends as it was without that socket.
pub proof fn law_client_session(
    c: Map<SocketId, ClientState>,
    socket_id: SocketId,
    client_id: String,
    command: RpcCommand,
    n1: nat,
    n2: nat,
    n3: nat,
    d1: Map<SocketId, ClientState>,
    d2: Map<SocketId, ClientState>,
    d3: Map<SocketId, ClientState>,
    a1: Seq<ServerAction>,
    a2: Seq<ServerAction>,
    a3: Seq<ServerAction>,
)
    requires
        event_effect(c, TransportEvent::Connected { socket_id, client_id }, n1, d1, a1),
        event_effect(d1, TransportEvent::Message { socket_id, command }, n2, d2, a2),
        event_effect(d2, TransportEvent::Disconnected { socket_id }, n3, d3, a3),
    ensures
        a1.len() == 1,
        a1[0] matches ServerAction::Reply { socket_id: s, response: r } && s == socket_id
            && is_ready_response(r),
        d3 == c.remove(socket_id),
        a3.len() == 1,
        a3[0] matches ServerAction::Publish(m) && is_clear_message(
            m@,
            match command_pid(command) {
                Some(p) => p,
                None => 0,
            },
            socket_id,
        ),
{
    assert(d2.contains_key(socket_id));
    assert(d2[socket_id].last_pid == command_pid(command));
    assert(d3 =~= c.remove(socket_id));
}

/// The activity message that clears a socket's activity.
pub open spec fn is_clear_message(m: ActivityMessageModel, pid: Pid, socket_id: SocketId) -> bool {
    m.activity is None && m.pid == pid && m.socket_id == decimal_digits(socket_id as nat)
}

/// The effect of one command from `socket_id`, given the clients before
/// (`c`) and after (`d`) and the actions taken.
pub open spec fn command_effect(
    c: Map<SocketId, ClientState>,
    socket_id: SocketId,
    command: RpcCommand,
    now_len: nat,
    d: Map<SocketId, ClientState>,
    actions: Seq<ServerAction>,
) -> bool {
    let name = command.cmd@;
    if name == "SET_ACTIVITY"@ {
        match command.args.activity_args {
            // Arguments that do not parse are dropped.
            None => d == c && actions.len() == 0,
            Some(args) => {
                let cid = client_id_view(c, socket_id);
                &&& d == with_last_pid(c, socket_id, args.pid)
                &&& actions.len() == 2
                &&& match args.activity {
                    Some(a) => {
                        &&& actions[0] matches ServerAction::Publish(m)
                        &&& m.pid == args.pid
                        &&& m.socket_id@ == decimal_digits(socket_id as nat)
                        &&& m.activity matches Some(p)
                        &&& prepared_activity(p@, a@, cid, now_len)
                        &&& actions[1] matches ServerAction::Reply { socket_id: s, response: r }
                        &&& s == socket_id
                        &&& echoes(r, command)
                        &&& r.evt is None
                        &&& r.data matches Some(ResponseData::Activity(ack))
                        &&& ack_of(ack, p@, cid)
                    },
                    None => {
                        &&& actions[0] matches ServerAction::Publish(m)
                        &&& is_clear_message(m@, args.pid, socket_id)
                        &&& actions[1] matches ServerAction::Reply { socket_id: s, response: r }
                        &&& s == socket_id
                        &&& echoes(r, command)
                        &&& r.data is None
                        &&& r.evt is None
                    },
                }
            },
        }
    } else if name == "CONNECTIONS_CALLBACK"@ {
        &&& d == c
        &&& actions.len() == 1
        &&& actions[0] matches ServerAction::Reply { socket_id: s, response: r }
        &&& s == socket_id
        &&& echoes(r, command)
        &&& r.data == Some(ResponseData::Code(1000))
        &&& r.evt matches Some(e) && e@ == "ERROR"@
    } else if name == "INVITE_BROWSER"@ || name == "GUILD_TEMPLATE_BROWSER"@ {
        &&& d == c
        &&& actions.len() == 1
        &&& actions[0] matches ServerAction::Reply { socket_id: s, response: r }
        &&& s == socket_id
        &&& echoes(r, command)
        &&& r.data matches Some(ResponseData::InviteCode(code))
        &&& code@ == match command.args.code {
            Some(x) => x@,
            None => Seq::empty(),
        }
        &&& r.evt is None
    } else if name == "DEEP_LINK"@ {
        &&& d == c
        &&& actions.len() == 1
        &&& actions[0] matches ServerAction::Reply { socket_id: s, response: r }
        &&& s == socket_id
        &&& echoes(r, command)
        &&& r.data is None
        &&& r.evt is None
    } else {
        // Unknown commands get no reply.
        d == c && actions.len() == 0
    }
}

/// The effect of one transport event, given the clients before (`c`) and
/// after (`d`) and the actions taken.
pub open spec fn event_effect(
    c: Map<SocketId, ClientState>,
    event: TransportEvent,
    now_len: nat,
    d: Map<SocketId, ClientState>,
    actions: Seq<ServerAction>,
) -> bool {
    match event {
        TransportEvent::Connected { socket_id, client_id } => {
            &&& d == c.insert(socket_id, ClientState { client_id, last_pid: None })
            &&& actions.len() == 1
            &&& actions[0] matches ServerAction::Reply { socket_id: s, response: r }
            &&& s == socket_id
            &&& is_ready_response(r)
        },
        TransportEvent::Disconnected { socket_id } => {
            &&& d == c.remove(socket_id)
            &&& if c.contains_key(socket_id) {
                &&& actions.len() == 1
                &&& actions[0] matches ServerAction::Publish(m)
                &&& is_clear_message(
                    m@,
                    match c[socket_id].last_pid {
                        Some(p) => p,
                        None => 0,
                    },
                    socket_id,
                )
            } else {
                actions.len() == 0
            }
        },
        TransportEvent::Message { socket_id, command } => command_effect(
            c,
            socket_id,
            command,
            now_len,
            d,
            actions,
        ),
    }
}

/// An event that the server can handle at time `now_ms`: a SET_ACTIVITY
/// whose timestamps would overflow when normalised is refused.
pub open spec fn event_ok(event: TransportEvent, now_ms: Option<u128>) -> bool {
    match event {
        TransportEvent::Message { socket_id, command } => match command.args.activity_args {
            Some(args) => match args.activity {
                Some(a) => command.cmd@ == "SET_ACTIVITY"@ ==> timestamps_ok(
                    a.timestamps,
                    now_digits(now_ms),
                ),
                None => true,
            },
            None => true,
        },
        _ => true,
    }
}

/// Main RPC server state: the configuration and the connected clients.
#[derive(Debug)]
pub struct RpcServer {
    pub config: Config,
    /// Socket ID to client state.
    pub clients: HashMap<SocketId, ClientState>,
}

impl RpcServer {
    /// A server with no clients.
    pub fn new(config: Config) -> (r: Self)
        ensures
            r.config == config,
            r.clients@ == Map::<SocketId, ClientState>::empty(),
    {
        RpcServer { config, clients: HashMap::new() }
    }

    /// Whether the server can handle `event` at time `now_ms` (see
    /// [`event_ok`]).
    pub fn accepts(event: &TransportEvent, now_ms: Option<u128>) -> (r: bool)
        ensures
            r == event_ok(*event, now_ms),
    {
        match event {
            TransportEvent::Message { socket_id, command } => match &command.args.activity_args {
                Some(args) => match &args.activity {
                    Some(a) => !cmd_is(&command.cmd, "SET_ACTIVITY") || timestamps_normalizable(
                        a,
                        now_ms,
                    ),
                    None => true,
                },
                None => true,
            },
            _ => true,
        }
    }

    fn handle_set_activity(
        &mut self,
        socket_id: SocketId,
        command: RpcCommand,
        now_len: usize,
    ) -> (actions: Vec<ServerAction>)
        requires
            command.cmd@ == "SET_ACTIVITY"@,
            match command.args.activity_args {
                Some(args) => match args.activity {
                    Some(a) => timestamps_ok(a.timestamps, now_len as nat),
                    None => true,
                },
                None => true,
            },
        ensures
            final(self).config == old(self).config,
            command_effect(
                old(self).clients@,
                socket_id,
                command,
                now_len as nat,
                final(self).clients@,
                actions@,
            ),
    {
        let ghost cmd0 = command;
        let RpcCommand { cmd, args, nonce } = command;
        let mut actions: Vec<ServerAction> = Vec::new();
        let set = match args.activity_args {
            Some(a) => a,
            None => {
                return actions;
            },
        };
        let ghost c = self.clients@;
        // Record the client's process.
        let client_id = match self.clients.get(&socket_id) {
            Some(client) => {
                let id = client.client_id.clone();
                let updated = ClientState { client_id: client.client_id.clone(), last_pid: Some(set.pid) };
                self.clients.insert(socket_id, updated);
                id
            },
            None => String::new(),
        };
        assert(self.clients@ == with_last_pid(c, socket_id, set.pid));
        assert(client_id@ == client_id_view(c, socket_id));
        let socket = decimal_string(socket_id);
        match set.activity {
            Some(activity) => {
                let ghost a = activity@;
                let prepared = prepare_activity(activity, client_id, now_len);
                let ack = ack_for(&prepared);
                let published = prepared.clone();
                actions.push(
                    ServerAction::Publish(
                        ActivityMessage { activity: Some(published), pid: set.pid, socket_id: socket },
                    ),
                );
                actions.push(
                    ServerAction::Reply {
                        socket_id,
                        response: RpcResponse {
                            cmd,
                            data: Some(ResponseData::Activity(ack)),
                            evt: None,
                            nonce,
                        },
                    },
                );
            },
            None => {
                actions.push(
                    ServerAction::Publish(
                        ActivityMessage { activity: None, pid: set.pid, socket_id: socket },
                    ),
                );
                actions.push(
                    ServerAction::Reply {
                        socket_id,
                        response: RpcResponse { cmd, data: None, evt: None, nonce },
                    },
                );
            },
        }
        actions
    }

    /// Handle one event from the transports, returning the replies to send
    /// and the activity messages to publish, in order.
    pub fn handle_event(&mut self, event: TransportEvent, now_ms: Option<u128>) -> (actions: Vec<
        ServerAction,
    >)
        requires
            event_ok(event, now_ms),
        ensures
            final(self).config == old(self).config,
            event_effect(
                old(self).clients@,
                event,
                now_digits(now_ms),
                final(self).clients@,
                actions@,
            ),
    {
        let mut actions: Vec<ServerAction> = Vec::new();
        match event {
            TransportEvent::Connected { socket_id, client_id } => {
                self.clients.insert(socket_id, ClientState { client_id, last_pid: None });
                actions.push(
                    ServerAction::Reply { socket_id, response: create_ready_response() },
                );
            },
            TransportEvent::Disconnected { socket_id } => {
                match self.clients.remove(&socket_id) {
                    Some(client) => {
                        let pid = match client.last_pid {
                            Some(p) => p,
                            None => 0,
                        };
                        actions.push(
                            ServerAction::Publish(
                                ActivityMessage {
                                    activity: None,
                                    pid,
                                    socket_id: decimal_string(socket_id),
                                },
                            ),
                        );
                    },
                    None => {},
                }
            },
            TransportEvent::Message { socket_id, command } => {
                let now_len = current_digits(now_ms);
                if cmd_is(&command.cmd, "SET_ACTIVITY") {
                    return self.handle_set_activity(socket_id, command, now_len);
                }
                if cmd_is(&command.cmd, "CONNECTIONS_CALLBACK") {
                    actions.push(
                        ServerAction::Reply {
                            socket_id,
                            response: RpcResponse {
                                cmd: command.cmd,
                                data: Some(ResponseData::Code(1000)),
                                evt: Some(String::from_str("ERROR")),
                                nonce: command.nonce,
                            },
                        },
                    );
                } else if cmd_is(&command.cmd, "INVITE_BROWSER") || cmd_is(
                    &command.cmd,
                    "GUILD_TEMPLATE_BROWSER",
                ) {
                    let code = match command.args.code {
                        Some(x) => x,
                        None => String::new(),
                    };
                    actions.push(
                        ServerAction::Reply {
                            socket_id,
                            response: RpcResponse {
                                cmd: command.cmd,
                                data: Some(ResponseData::InviteCode(code)),
                                evt: None,
                                nonce: command.nonce,
                            },
                        },
                    );
                } else if cmd_is(&command.cmd, "DEEP_LINK") {
                    actions.push(
                        ServerAction::Reply {
                            socket_id,
                            response: RpcResponse {
                                cmd: command.cmd,
                                data: None,
                                evt: None,
                                nonce: command.nonce,
                            },
                        },
                    );
                }
            },
        }
        actions
    }
}

/// The activity message published for a detected game: its name and id,
/// its start time, and the game id as socket id.
pub fn detected_game_message(game: &DetectedGame) -> (m: ActivityMessage)
    ensures
        m.pid == game.pid,
        m.socket_id@ == game.id@,
        m.activity matches Some(a) && {
            &&& a.application_id matches Some(id) && id@ == game.id@
            &&& a.name matches Some(n) && n@ == game.name@
            &&& a.timestamps == Some(Timestamps { start: Some(game.start_time), end: None })
            &&& a.state is None
            &&& a.details is None
            &&& a.assets is None
            &&& a.party is None
            &&& a.buttons is None
            &&& a.instance is None
            &&& a.activity_type == 0
            &&& a.flags == 0
            &&& a.metadata@.len() == 0
        },
{
    let mut activity = Activity::default();
    activity.application_id = Some(game.id.clone());
    activity.name = Some(game.name.clone());
    activity.timestamps = Some(Timestamps { start: Some(game.start_time), end: None });
    ActivityMessage { activity: Some(activity), pid: game.pid, socket_id: game.id.clone() }
}

} // verus!
