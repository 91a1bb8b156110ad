//! Server configuration.

use vstd::prelude::*;

verus! {

/// Server configuration.
#[derive(Debug)]
pub struct Config {
    /// JSON bridge port (arRPC-compatible).
    pub bridge_port: u16,
    /// MessagePack bridge port.
    pub msgpack_port: u16,
    /// WebSocket RPC port range start.
    pub ws_port_start: u16,
    /// WebSocket RPC port range end.
    pub ws_port_end: u16,
    /// Whether running processes are scanned for games.
    pub process_scanning: bool,
    /// Process scan interval in milliseconds.
    pub scan_interval_ms: u64,
    /// Verbose logging.
    pub debug: bool,
    /// URL of the detectable games database.
    pub db_url: String,
    /// Enable dynamic update of detectable.json at startup.
    pub enable_db_update: bool,
}

impl Config {
    /// Whether the detectable games database is fetched from `db_url` at
    /// startup: whenever game detection is on. No copy of the database ships
    /// with the server, so detection starts from the fetched one.
    pub fn fetch_database_at_startup(&self) -> (r: bool)
        ensures
            r == self.process_scanning,
    {
        self.process_scanning
    }
}

impl Clone for Config {
    fn clone(&self) -> (r: Self)
        ensures
            r == *self,
    {
        Config {
            bridge_port: self.bridge_port,
            msgpack_port: self.msgpack_port,
            ws_port_start: self.ws_port_start,
            ws_port_end: self.ws_port_end,
            process_scanning: self.process_scanning,
            scan_interval_ms: self.scan_interval_ms,
            debug: self.debug,
            db_url: self.db_url.clone(),
            enable_db_update: self.enable_db_update,
        }
    }
}

impl Default for Config {
    fn default() -> (r: Self)
        ensures
            r.bridge_port == 1337,
            r.msgpack_port == 1338,
            r.ws_port_start == 6463,
            r.ws_port_end == 6472,
            r.process_scanning,
            r.scan_interval_ms == 5000,
            !r.debug,
            r.db_url@ == "https://discord.com/api/v9/applications/detectable"@,
            !r.enable_db_update,
    {
        Config {
            bridge_port: 1337,
            msgpack_port: 1338,
            ws_port_start: 6463,
            ws_port_end: 6472,
            process_scanning: true,
            scan_interval_ms: 5000,
            debug: false,
            db_url: String::from_str("https://discord.com/api/v9/applications/detectable"),
            enable_db_update: false,
        }
    }
}

} // verus!
