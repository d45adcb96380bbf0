//! Error kinds surfaced by the framework.  No error is fatal: each one fails
//! its operation and leaves the object graph consistent.

use vstd::prelude::*;
use crate::types::{BtStatus, ConnectionId, GattInterface, GattStatus, Handle, TransferId};

verus! {

/// Everything that can go wrong in an operation of the framework.
#[derive(Clone, Copy, PartialEq, Eq, Structural, Debug)]
pub enum Error {
    /// The underlying host-stack call returned non-success.  Constructed by
    /// the surrounding program; the verified core never produces it.
    HostStack,
    /// A reply carried a status other than success.
    StatusNotOk(GattStatus),
    /// A GAP reply carried a status other than success.
    BtStatusNotOk(BtStatus),
    /// A reply's identity fields do not match the request.
    IdentityMismatch,
    /// No reply arrived within the waiting period.
    Timeout,
    /// An event referred to a handle absent from the global registry.
    UnknownHandle(Handle),
    /// An event referred to a GATT interface with no registered application.
    UnknownInterface(GattInterface),
    /// An event referred to a connection id that is not open.
    UnknownConnection(ConnectionId),
    /// An execute-write referred to a transfer with no prepare buffer.
    UnknownTransfer(TransferId),
    /// Value bytes were rejected by the attribute's codec, or a prepared
    /// write grew beyond the largest attribute the host stack accepts.
    CodecError,
    /// An indication was requested before the connection negotiated an MTU.
    MtuUnknown(ConnectionId),
    /// An attribute with this handle is already in the global registry.
    DuplicateHandle(Handle),
    /// An application with this interface is already registered.
    DuplicateInterface(GattInterface),
    /// A service with this identity is already registered on the application.
    DuplicateService,
    /// A connection with this id is already open.
    DuplicateConnection(ConnectionId),
    /// A descriptor with this UUID is already attached to the characteristic.
    DuplicateUuid,
    /// The attribute's handle was assigned before; it is set exactly once.
    HandleAlreadySet,
    /// The operation needs a handle that has not been assigned yet.
    HandleNotSet,
    /// Auto-advertising is disabled: no connection budget is configured.
    MaxConnectionsNotSet,
    /// At least one connection failed to confirm an indication.
    IndicationFailed,
    /// The dispatcher received an event of a kind it does not serve.
    UnexpectedEvent,
    /// No descriptor with this UUID awaits registration on the
    /// characteristic.
    UnknownDescriptor,
    /// The service's lifecycle state does not allow the operation.
    InvalidServiceState,
}

} // verus!
