//! Transport layer: events and commands exchanged with the server, and
//! socket identifiers.

pub mod ipc;
pub mod websocket;

use vstd::prelude::*;
use crate::types::{RpcCommand, RpcResponse, SocketId};

verus! {

/// Events from the transport layer to the server.
#[derive(Debug)]
pub enum TransportEvent {
    /// New client connected.
    Connected { socket_id: SocketId, client_id: String },
    /// Client disconnected.
    Disconnected { socket_id: SocketId },
    /// Message received from client.
    Message { socket_id: SocketId, command: RpcCommand },
}

/// Commands from the server to the transport layer.
#[derive(Debug, Clone)]
pub enum TransportCommand {
    /// Send response to specific client.
    Send { socket_id: SocketId, response: RpcResponse },
    /// Close connection to client.
    Close { socket_id: SocketId },
}

/// Hands out socket identifiers, counting up in steps of two from a start
/// value (wrapping around at the end of the `u64` range). Every identifier
/// an allocator hands out has the parity of its start value, so the IPC
/// transport (odd identifiers) and the WebSocket transport (even
/// identifiers from 1000) never hand out the same one.
#[derive(Debug)]
pub struct SocketIdAllocator {
    pub next: u64,
}

/// First socket identifier of the IPC transport; IPC identifiers are odd.
pub const IPC_FIRST_SOCKET_ID: u64 = 1;

/// First socket identifier of the WebSocket transport; WebSocket
/// identifiers are even, so they never collide with IPC identifiers.
pub const WS_FIRST_SOCKET_ID: u64 = 1000;

/// The identifier handed out after `n`.
pub open spec fn successor(n: u64) -> u64 {
    ((n + 2) % 0x1_0000_0000_0000_0000) as u64
}

/// The identifier handed out `k` calls after `n`.
pub open spec fn successor_n(n: u64, k: nat) -> u64
    decreases k,
{
    if k == 0 {
        n
    } else {
        successor(successor_n(n, (k - 1) as nat))
    }
}

impl SocketIdAllocator {
    /// An allocator whose first identifier is `start`.
    pub fn new(start: u64) -> (r: Self)
        ensures
            r.next == start,
    {
        SocketIdAllocator { next: start }
    }

    /// Returns the next identifier and advances the counter.
    pub fn next_id(&mut self) -> (id: SocketId)
        ensures
            id == old(self).next,
            final(self).next == successor(old(self).next),
    {
        let id = self.next;
        self.next = self.next.wrapping_add(2);
        id
    }
}

proof fn lemma_successor_n(n: u64, k: nat)
    ensures
        successor_n(n, k) == (n + 2 * k) % 0x1_0000_0000_0000_0000,
    decreases k,
{
    if k > 0 {
        lemma_successor_n(n, (k - 1) as nat);
        let m: int = 0x1_0000_0000_0000_0000;
        vstd::arithmetic::div_mod::lemma_add_mod_noop_right(2, n + 2 * (k - 1), m);
    }
}

proof fn lemma_successor_n_parity(n: u64, k: nat)
    ensures
        successor_n(n, k) % 2 == n % 2,
{
    lemma_successor_n(n, k);
    let x: int = n + 2 * k;
    vstd::arithmetic::div_mod::lemma_mod_mod(x, 2, 0x8000_0000_0000_0000);
    assert(2 * 0x8000_0000_0000_0000int == 0x1_0000_0000_0000_0000int);
    vstd::arithmetic::div_mod::lemma_mod_multiples_vanish(k as int, n as int, 2);
}

/// An allocator does not hand out an identifier again before it has handed
/// out `2^63` identifiers: the identifiers `1` to `2^63 - 1` calls after one
/// identifier all differ from it.
pub proof fn law_ids_distinct(n: u64, k: nat)
    requires
        0 < k < 0x8000_0000_0000_0000,
    ensures
        successor_n(n, k) != n,
{
    lemma_successor_n(n, k);
    let m: int = 0x1_0000_0000_0000_0000;
    let x: int = n + 2 * k;
    assert(n < x < n + m);
    if x < m {
        vstd::arithmetic::div_mod::lemma_small_mod(x as nat, m as nat);
    } else {
        vstd::arithmetic::div_mod::lemma_mod_multiples_vanish(1, x - m, m);
        vstd::arithmetic::div_mod::lemma_small_mod((x - m) as nat, m as nat);
    }
}

/// IPC and WebSocket socket identifiers never collide: however many
/// identifiers each transport has handed out, the IPC transport's `i`-th
/// and the WebSocket transport's `j`-th differ.
pub proof fn law_transport_ids_disjoint(i: nat, j: nat)
    ensures
        successor_n(IPC_FIRST_SOCKET_ID, i) != successor_n(WS_FIRST_SOCKET_ID, j),
{
    lemma_successor_n_parity(IPC_FIRST_SOCKET_ID, i);
    lemma_successor_n_parity(WS_FIRST_SOCKET_ID, j);
}

} // verus!
