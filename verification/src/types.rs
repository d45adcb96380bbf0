//! Plain value types shared by the whole framework: identifiers assigned by
//! the host stack, status codes, UUIDs and connection parameters.

use vstd::prelude::*;

verus! {

/// 16-bit attribute handle assigned by the host stack.
pub type Handle = u16;

/// Identifier of an open connection, assigned by the host stack.
pub type ConnectionId = u16;

/// Identifier of a (possibly multi-chunk) attribute transfer.
pub type TransferId = u32;

/// Application identifier chosen by the caller at registration.
pub type AppId = u16;

/// GATT interface assigned by the host stack to a registered application.
pub type GattInterface = u8;

/// The largest attribute value the host stack accepts.
pub const MAX_ATTR_LEN: usize = 600;

/// A Bluetooth UUID in any of the three wire widths.
#[derive(Clone, Copy, PartialEq, Eq, Structural, Debug)]
pub enum BtUuid {
    Uuid16(u16),
    Uuid32(u32),
    Uuid128(u128),
}

/// Status carried by GATT-server replies from the host stack.
#[derive(Clone, Copy, PartialEq, Eq, Structural, Debug)]
pub enum GattStatus {
    Success,
    Busy,
    Failure,
    Other,
}

/// Status carried by GAP replies from the host stack.
#[derive(Clone, Copy, PartialEq, Eq, Structural, Debug)]
pub enum BtStatus {
    Success,
    Done,
    Fail,
    Other,
}

/// Reason reported by the host stack for a peer disconnection.
#[derive(Clone, Copy, PartialEq, Eq, Structural, Debug)]
pub enum GattConnReason {
    Unknown,
    Timeout,
    PeerTerminated,
    LocalTerminated,
    Other,
}

/// A peer device address.
#[derive(Clone, Copy, PartialEq, Eq, Debug)]
pub struct BdAddr {
    pub octets: [u8; 6],
}

/// Connection timing parameters reported by the host stack.
#[derive(Clone, Copy, PartialEq, Eq, Structural, Debug)]
pub struct GattConnParams {
    pub interval_ms: u32,
    pub latency_ms: u32,
    pub timeout_ms: u32,
}

/// UUID plus instance number identifying a GATT entity.
#[derive(Clone, Copy, PartialEq, Eq, Structural, Debug)]
pub struct GattId {
    pub uuid: BtUuid,
    pub inst_id: u8,
}

/// Full identity of a service: id plus the primary flag.
#[derive(Clone, Copy, PartialEq, Eq, Structural, Debug)]
pub struct GattServiceId {
    pub id: GattId,
    pub is_primary: bool,
}

} // verus!
