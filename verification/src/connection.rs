//! Open connections and the connection-status stream.

use vstd::prelude::*;
use crate::types::{BdAddr, ConnectionId, GattConnParams, GattInterface};

verus! {

/// An open connection to a peer.  `mtu` is absent until the first
/// MTU-negotiation event for this connection arrives.
#[derive(Debug, Clone, Copy, PartialEq)]
pub struct ConnectionInner {
    pub interface: GattInterface,
    pub id: ConnectionId,
    pub link_role: u8,
    pub mtu: Option<u16>,
    pub address: BdAddr,
    pub conn_params: GattConnParams,
}

/// A change of the connection set, broadcast on the server-wide channel and
/// on the GAP-facing channel for the auto-advertising loop.
#[derive(Debug, Clone, Copy, PartialEq)]
pub enum ConnectionStatus {
    Connected(ConnectionInner),
    Disconnected(ConnectionInner),
}

} // verus!
