//! Core types of the Discord RPC protocol.
//!
//! JSON-valued fields of the wire format are held here as typed values; the
//! conversion from and to JSON happens at the edge of the program.

use vstd::prelude::*;
use vstd::std_specs::convert::TryFromSpecImpl;

verus! {

/// Process ID type.
pub type Pid = u32;

/// Socket ID for client identification.
pub type SocketId = u64;

/// Discord application/client ID.
pub type ClientId = String;

// ---------------------------------------------------------------------------
// Codes
// ---------------------------------------------------------------------------

/// IPC message types (Discord RPC protocol).
#[derive(Debug, Clone, Copy, PartialEq, Eq, Structural)]
pub enum IpcOpcode {
    Handshake,
    Frame,
    Close,
    Ping,
    Pong,
}

/// The numeric value of an opcode on the wire.
pub open spec fn opcode_value(op: IpcOpcode) -> u32 {
    match op {
        IpcOpcode::Handshake => 0,
        IpcOpcode::Frame => 1,
        IpcOpcode::Close => 2,
        IpcOpcode::Ping => 3,
        IpcOpcode::Pong => 4,
    }
}

/// The opcode with numeric value `v`, if there is one.
pub open spec fn opcode_of(v: u32) -> Result<IpcOpcode, ()> {
    if v == 0 {
        Ok(IpcOpcode::Handshake)
    } else if v == 1 {
        Ok(IpcOpcode::Frame)
    } else if v == 2 {
        Ok(IpcOpcode::Close)
    } else if v == 3 {
        Ok(IpcOpcode::Ping)
    } else if v == 4 {
        Ok(IpcOpcode::Pong)
    } else {
        Err(())
    }
}

impl IpcOpcode {
    /// The numeric value of this opcode on the wire.
    pub fn code(self) -> (c: u32)
        ensures
            c == opcode_value(self),
    {
        match self {
            IpcOpcode::Handshake => 0,
            IpcOpcode::Frame => 1,
            IpcOpcode::Close => 2,
            IpcOpcode::Ping => 3,
            IpcOpcode::Pong => 4,
        }
    }
}

impl TryFrom<u32> for IpcOpcode {
    type Error = ();

    fn try_from(value: u32) -> (r: Result<Self, ()>) {
        if value == 0 {
            Ok(IpcOpcode::Handshake)
        } else if value == 1 {
            Ok(IpcOpcode::Frame)
        } else if value == 2 {
            Ok(IpcOpcode::Close)
        } else if value == 3 {
            Ok(IpcOpcode::Ping)
        } else if value == 4 {
            Ok(IpcOpcode::Pong)
        } else {
            Err(())
        }
    }
}

impl TryFromSpecImpl<u32> for IpcOpcode {
    open spec fn obeys_try_from_spec() -> bool {
        true
    }

    open spec fn try_from_spec(v: u32) -> Result<Self, ()> {
        opcode_of(v)
    }
}

/// Decoding the numeric value of an opcode gives the opcode back, and only
/// the values 0 to 4 name an opcode.
pub proof fn law_opcode_roundtrip(op: IpcOpcode, v: u32)
    ensures
        opcode_of(opcode_value(op)) == Ok::<IpcOpcode, ()>(op),
        opcode_of(v) is Ok <==> v <= 4,
        opcode_of(v) is Ok ==> opcode_value(opcode_of(v)->Ok_0) == v,
{
}

/// IPC close codes.
#[derive(Debug, Clone, Copy, PartialEq, Eq, Structural)]
pub enum CloseCode {
    Normal,
    Unsupported,
    Abnormal,
}

/// The numeric value of a close code.
pub open spec fn close_code_value(c: CloseCode) -> u32 {
    match c {
        CloseCode::Normal => 1000,
        CloseCode::Unsupported => 1003,
        CloseCode::Abnormal => 1006,
    }
}

impl CloseCode {
    /// The numeric value of this close code.
    pub fn code(self) -> (r: u32)
        ensures
            r == close_code_value(self),
    {
        match self {
            CloseCode::Normal => 1000,
            CloseCode::Unsupported => 1003,
            CloseCode::Abnormal => 1006,
        }
    }
}

/// IPC error codes.
#[derive(Debug, Clone, Copy, PartialEq, Eq, Structural)]
pub enum ErrorCode {
    InvalidClientId,
    InvalidOrigin,
    RateLimited,
    TokenRevoked,
    InvalidVersion,
    InvalidEncoding,
}

/// The numeric value of an error code.
pub open spec fn error_code_value(c: ErrorCode) -> u32 {
    match c {
        ErrorCode::InvalidClientId => 4000,
        ErrorCode::InvalidOrigin => 4001,
        ErrorCode::RateLimited => 4002,
        ErrorCode::TokenRevoked => 4003,
        ErrorCode::InvalidVersion => 4004,
        ErrorCode::InvalidEncoding => 4005,
    }
}

impl ErrorCode {
    /// The numeric value of this error code.
    pub fn code(self) -> (r: u32)
        ensures
            r == error_code_value(self),
    {
        match self {
            ErrorCode::InvalidClientId => 4000,
            ErrorCode::InvalidOrigin => 4001,
            ErrorCode::RateLimited => 4002,
            ErrorCode::TokenRevoked => 4003,
            ErrorCode::InvalidVersion => 4004,
            ErrorCode::InvalidEncoding => 4005,
        }
    }
}

// ---------------------------------------------------------------------------
// Cloning helpers
// ---------------------------------------------------------------------------

/// A copy of an optional string.
pub fn clone_opt_string(o: &Option<String>) -> (r: Option<String>)
    ensures
        r == *o,
{
    match o {
        Some(s) => Some(s.clone()),
        None => None,
    }
}

/// A copy of a vector of strings.
pub fn clone_strings(v: &Vec<String>) -> (r: Vec<String>)
    ensures
        r@ == v@,
{
    let mut out: Vec<String> = Vec::new();
    let mut i: usize = 0;
    while i < v.len()
        invariant
            i <= v.len(),
            out@ == v@.take(i as int),
        decreases v.len() - i,
    {
        out.push(v[i].clone());
        assert(v@.take(i + 1) =~= v@.take(i as int).push(v@[i as int]));
        i += 1;
    }
    assert(v@.take(v.len() as int) =~= v@);
    out
}

// ---------------------------------------------------------------------------
// Handshake and activity payloads
// ---------------------------------------------------------------------------

/// Handshake request from client.
#[derive(Debug, Clone)]
pub struct Handshake {
    pub v: u32,
    pub client_id: String,
}

/// Activity timestamps.
#[derive(Debug, Clone, Copy, PartialEq, Eq, Structural)]
pub struct Timestamps {
    pub start: Option<i64>,
    pub end: Option<i64>,
}

impl Default for Timestamps {
    fn default() -> (r: Self)
        ensures
            r.start is None && r.end is None,
    {
        Timestamps { start: None, end: None }
    }
}

/// Activity assets (images).
#[derive(Debug)]
pub struct Assets {
    pub large_image: Option<String>,
    pub large_text: Option<String>,
    pub small_image: Option<String>,
    pub small_text: Option<String>,
}

impl Clone for Assets {
    fn clone(&self) -> (r: Self)
        ensures
            r == *self,
    {
        Assets {
            large_image: clone_opt_string(&self.large_image),
            large_text: clone_opt_string(&self.large_text),
            small_image: clone_opt_string(&self.small_image),
            small_text: clone_opt_string(&self.small_text),
        }
    }
}

impl Default for Assets {
    fn default() -> (r: Self)
        ensures
            r.large_image is None && r.large_text is None && r.small_image is None
                && r.small_text is None,
    {
        Assets { large_image: None, large_text: None, small_image: None, small_text: None }
    }
}

/// Activity party info.
#[derive(Debug)]
pub struct Party {
    pub id: Option<String>,
    pub size: Option<[u32; 2]>,
}

impl Clone for Party {
    fn clone(&self) -> (r: Self)
        ensures
            r == *self,
    {
        Party { id: clone_opt_string(&self.id), size: self.size }
    }
}

impl Default for Party {
    fn default() -> (r: Self)
        ensures
            r.id is None && r.size is None,
    {
        Party { id: None, size: None }
    }
}

/// Activity button.
#[derive(Debug)]
pub struct Button {
    pub label: String,
    pub url: String,
}

impl Clone for Button {
    fn clone(&self) -> (r: Self)
        ensures
            r == *self,
    {
        Button { label: self.label.clone(), url: self.url.clone() }
    }
}

/// A value of the activity metadata map.
#[derive(Debug)]
pub enum MetadataValue {
    /// A list of strings (the button URLs the server records).
    Urls(Vec<String>),
    /// Any other JSON value, as its JSON text.
    Json(String),
}

/// The model of a metadata value.
pub enum MetadataModel {
    Urls(Seq<String>),
    Json(String),
}

impl View for MetadataValue {
    type V = MetadataModel;

    open spec fn view(&self) -> MetadataModel {
        match self {
            MetadataValue::Urls(v) => MetadataModel::Urls(v@),
            MetadataValue::Json(s) => MetadataModel::Json(*s),
        }
    }
}

impl Clone for MetadataValue {
    fn clone(&self) -> (r: Self)
        ensures
            r@ == self@,
    {
        match self {
            MetadataValue::Urls(v) => MetadataValue::Urls(clone_strings(v)),
            MetadataValue::Json(s) => MetadataValue::Json(s.clone()),
        }
    }
}

/// An entry of the activity metadata map.
#[derive(Debug)]
pub struct MetadataEntry {
    pub key: String,
    pub value: MetadataValue,
}

impl View for MetadataEntry {
    type V = (Seq<char>, MetadataModel);

    open spec fn view(&self) -> (Seq<char>, MetadataModel) {
        (self.key@, self.value@)
    }
}

impl Clone for MetadataEntry {
    fn clone(&self) -> (r: Self)
        ensures
            r@ == self@,
    {
        MetadataEntry { key: self.key.clone(), value: self.value.clone() }
    }
}

/// The models of a sequence of metadata entries.
pub open spec fn metadata_model(m: Seq<MetadataEntry>) -> Seq<(Seq<char>, MetadataModel)> {
    m.map_values(|e: MetadataEntry| e@)
}

/// Discord Rich Presence activity.
#[derive(Debug)]
pub struct Activity {
    pub application_id: Option<String>,
    pub name: Option<String>,
    pub state: Option<String>,
    pub details: Option<String>,
    pub timestamps: Option<Timestamps>,
    pub assets: Option<Assets>,
    pub party: Option<Party>,
    pub buttons: Option<Vec<Button>>,
    pub instance: Option<bool>,
    pub activity_type: u8,
    pub flags: u32,
    pub metadata: Vec<MetadataEntry>,
}

/// The model of an activity: its fields, with sequences in place of vectors.
pub struct ActivityModel {
    pub application_id: Option<String>,
    pub name: Option<String>,
    pub state: Option<String>,
    pub details: Option<String>,
    pub timestamps: Option<Timestamps>,
    pub assets: Option<Assets>,
    pub party: Option<Party>,
    pub buttons: Option<Seq<Button>>,
    pub instance: Option<bool>,
    pub activity_type: u8,
    pub flags: u32,
    pub metadata: Seq<(Seq<char>, MetadataModel)>,
}

/// The model of an optional vector of buttons.
pub open spec fn buttons_model(b: Option<Vec<Button>>) -> Option<Seq<Button>> {
    match b {
        Some(v) => Some(v@),
        None => None,
    }
}

impl View for Activity {
    type V = ActivityModel;

    open spec fn view(&self) -> ActivityModel {
        ActivityModel {
            application_id: self.application_id,
            name: self.name,
            state: self.state,
            details: self.details,
            timestamps: self.timestamps,
            assets: self.assets,
            party: self.party,
            buttons: buttons_model(self.buttons),
            instance: self.instance,
            activity_type: self.activity_type,
            flags: self.flags,
            metadata: metadata_model(self.metadata@),
        }
    }
}

/// A copy of a vector of buttons.
pub fn clone_buttons(v: &Vec<Button>) -> (r: Vec<Button>)
    ensures
        r@ == v@,
{
    let mut out: Vec<Button> = Vec::new();
    let mut i: usize = 0;
    while i < v.len()
        invariant
            i <= v.len(),
            out@ == v@.take(i as int),
        decreases v.len() - i,
    {
        out.push(v[i].clone());
        assert(v@.take(i + 1) =~= v@.take(i as int).push(v@[i as int]));
        i += 1;
    }
    assert(v@.take(v.len() as int) =~= v@);
    out
}

/// A copy of a vector of metadata entries.
pub fn clone_metadata(v: &Vec<MetadataEntry>) -> (r: Vec<MetadataEntry>)
    ensures
        metadata_model(r@) == metadata_model(v@),
{
    let mut out: Vec<MetadataEntry> = Vec::new();
    let mut i: usize = 0;
    while i < v.len()
        invariant
            i <= v.len(),
            out@.len() == i,
            metadata_model(out@) == metadata_model(v@).take(i as int),
        decreases v.len() - i,
    {
        let ghost before = out@;
        let e = v[i].clone();
        out.push(e);
        assert forall|k: int| 0 <= k < i + 1 implies #[trigger] metadata_model(out@)[k]
            == metadata_model(v@).take(i + 1)[k] by {
            if k < i {
                assert(out@[k] == before[k]);
                assert(metadata_model(before)[k] == metadata_model(v@).take(i as int)[k]);
            }
        }
        assert(metadata_model(out@) =~= metadata_model(v@).take(i + 1));
        i += 1;
    }
    assert(metadata_model(v@).take(v.len() as int) =~= metadata_model(v@));
    out
}

impl Clone for Activity {
    fn clone(&self) -> (r: Self)
        ensures
            r@ == self@,
    {
        let buttons = match &self.buttons {
            Some(b) => Some(clone_buttons(b)),
            None => None,
        };
        let assets = match &self.assets {
            Some(a) => Some(a.clone()),
            None => None,
        };
        let party = match &self.party {
            Some(p) => Some(p.clone()),
            None => None,
        };
        Activity {
            application_id: clone_opt_string(&self.application_id),
            name: clone_opt_string(&self.name),
            state: clone_opt_string(&self.state),
            details: clone_opt_string(&self.details),
            timestamps: self.timestamps,
            assets,
            party,
            buttons,
            instance: self.instance,
            activity_type: self.activity_type,
            flags: self.flags,
            metadata: clone_metadata(&self.metadata),
        }
    }
}

impl Default for Activity {
    fn default() -> (r: Self)
        ensures
            r.application_id is None,
            r.name is None,
            r.state is None,
            r.details is None,
            r.timestamps is None,
            r.assets is None,
            r.party is None,
            r.buttons is None,
            r.instance is None,
            r.activity_type == 0,
            r.flags == 0,
            r.metadata@.len() == 0,
    {
        Activity {
            application_id: None,
            name: None,
            state: None,
            details: None,
            timestamps: None,
            assets: None,
            party: None,
            buttons: None,
            instance: None,
            activity_type: 0,
            flags: 0,
            metadata: Vec::new(),
        }
    }
}

/// SET_ACTIVITY command arguments.
#[derive(Debug, Clone)]
pub struct SetActivityArgs {
    pub pid: Pid,
    pub activity: Option<Activity>,
}

/// Activity message sent to bridge clients (arRPC format).
#[derive(Debug)]
pub struct ActivityMessage {
    pub activity: Option<Activity>,
    pub pid: Pid,
    pub socket_id: String,
}

/// The model of an activity message.
pub struct ActivityMessageModel {
    pub activity: Option<ActivityModel>,
    pub pid: Pid,
    pub socket_id: Seq<char>,
}

impl View for ActivityMessage {
    type V = ActivityMessageModel;

    open spec fn view(&self) -> ActivityMessageModel {
        ActivityMessageModel {
            activity: match self.activity {
                Some(a) => Some(a@),
                None => None,
            },
            pid: self.pid,
            socket_id: self.socket_id@,
        }
    }
}

impl Clone for ActivityMessage {
    fn clone(&self) -> (r: Self)
        ensures
            r@ == self@,
    {
        let activity = match &self.activity {
            Some(a) => Some(a.clone()),
            None => None,
        };
        ActivityMessage { activity, pid: self.pid, socket_id: self.socket_id.clone() }
    }
}

// ---------------------------------------------------------------------------
// READY payload
// ---------------------------------------------------------------------------

/// Discord config in READY.
#[derive(Debug, Clone)]
pub struct DiscordConfig {
    pub cdn_host: String,
    pub api_endpoint: String,
    pub environment: String,
}

impl Default for DiscordConfig {
    fn default() -> (r: Self)
        ensures
            r.cdn_host@ == "cdn.discordapp.com"@,
            r.api_endpoint@ == "//discord.com/api"@,
            r.environment@ == "production"@,
    {
        DiscordConfig {
            cdn_host: String::from_str("cdn.discordapp.com"),
            api_endpoint: String::from_str("//discord.com/api"),
            environment: String::from_str("production"),
        }
    }
}

/// Mock user for READY (arRPC compatibility).
#[derive(Debug, Clone)]
pub struct User {
    pub id: String,
    pub username: String,
    pub discriminator: String,
    pub global_name: String,
    pub avatar: String,
    pub avatar_decoration_data: Option<()>,
    pub bot: bool,
    pub flags: u32,
    pub premium_type: u32,
}

impl Default for User {
    fn default() -> (r: Self)
        ensures
            r.id@ == "1045800378228281345"@,
            r.username@ == "rsrpc"@,
            r.discriminator@ == "0"@,
            r.global_name@ == "rsRPC"@,
            r.avatar@ == "cfefa4d9839fb4bdf030f91c2a13e95c"@,
            r.avatar_decoration_data is None,
            !r.bot,
            r.flags == 0,
            r.premium_type == 0,
    {
        User {
            id: String::from_str("1045800378228281345"),
            username: String::from_str("rsrpc"),
            discriminator: String::from_str("0"),
            global_name: String::from_str("rsRPC"),
            avatar: String::from_str("cfefa4d9839fb4bdf030f91c2a13e95c"),
            avatar_decoration_data: None,
            bot: false,
            flags: 0,
            premium_type: 0,
        }
    }
}

/// READY dispatch data.
#[derive(Debug, Clone)]
pub struct ReadyData {
    pub v: u32,
    pub config: DiscordConfig,
    pub user: User,
}

// ---------------------------------------------------------------------------
// Process detection data
// ---------------------------------------------------------------------------

/// Process information for game detection.
#[derive(Debug, Clone)]
pub struct ProcessInfo {
    pub pid: Pid,
    /// The executable path, as text.
    pub path: String,
    pub args: Option<String>,
}

/// Detectable game from the arRPC database.
#[derive(Debug, Clone)]
pub struct DetectableGame {
    pub id: String,
    pub name: String,
    pub executables: Vec<Executable>,
}

/// Executable entry in the detectable database.
#[derive(Debug, Clone)]
pub struct Executable {
    pub name: String,
    pub is_launcher: bool,
    pub os: Option<String>,
    pub arguments: Option<String>,
}

// ---------------------------------------------------------------------------
// Commands and responses
// ---------------------------------------------------------------------------

/// What the server reads from the `args` object of a command.
#[derive(Debug, Clone)]
pub struct CommandArgs {
    /// `args.code`, when it is a string.
    pub code: Option<String>,
    /// `args` read as SET_ACTIVITY arguments, when it has that shape.
    pub activity_args: Option<SetActivityArgs>,
}

/// RPC command from client.
#[derive(Debug, Clone)]
pub struct RpcCommand {
    pub cmd: String,
    pub args: CommandArgs,
    pub nonce: Option<String>,
}

/// Data of the reply to SET_ACTIVITY: the activity as the client sees it.
#[derive(Debug, Clone)]
pub struct ActivityAck {
    /// The activity's name: always empty in the reply.
    pub name: String,
    pub application_id: String,
    /// The activity type: always 0 (playing) in the reply.
    pub activity_type: u8,
    pub state: Option<String>,
    pub details: Option<String>,
    pub timestamps: Option<Timestamps>,
    pub assets: Option<Assets>,
    pub party: Option<Party>,
    /// The button labels.
    pub buttons: Option<Vec<String>>,
}

/// The `data` of an RPC response.
#[derive(Debug, Clone)]
pub enum ResponseData {
    /// READY dispatch payload.
    Ready(ReadyData),
    /// `{"code": n}` with a numeric code.
    Code(u32),
    /// `{"code": s}` with an invite or template code.
    InviteCode(String),
    /// The reply to SET_ACTIVITY.
    Activity(ActivityAck),
}

/// RPC response to client.
#[derive(Debug, Clone)]
pub struct RpcResponse {
    pub cmd: String,
    pub data: Option<ResponseData>,
    pub evt: Option<String>,
    pub nonce: Option<String>,
}

} // verus!
