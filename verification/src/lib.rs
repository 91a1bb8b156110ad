//! Discord Rich Presence server core: wire framing, session state machines,
//! command handling, activity bridge state and game detection.

pub mod keyed;
pub mod text;
pub mod types;
pub mod config;
pub mod protocol;
pub mod transports;
pub mod process;
pub mod bridge;
pub mod server;
