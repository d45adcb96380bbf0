//! The event taxonomy: owned, typed event variants decoupled from the host
//! stack callback's lifetime.  Byte slices and handle lists are copied by
//! the callback boundary before any cross-thread transfer, so every payload
//! here is a plain owned value.
//!
//! Event kinds (discriminants, not values) key the correlation router: two
//! events of the same kind with different payloads route through one slot.

use vstd::prelude::*;
use crate::router::KindKey;
use crate::types::{AppId, BdAddr, BtStatus, BtUuid, ConnectionId, GattConnParams,
    GattConnReason, GattInterface, GattServiceId, GattStatus, Handle, TransferId};

verus! {

/// A GATT-server event, owned, carrying the full host-stack payload.
#[derive(Debug, Clone, PartialEq)]
pub enum GattsEvent {
    ServiceRegistered { status: GattStatus, app_id: AppId },
    Read {
        conn_id: ConnectionId,
        trans_id: TransferId,
        addr: BdAddr,
        handle: Handle,
        offset: u16,
        is_long: bool,
        need_rsp: bool,
    },
    Write {
        conn_id: ConnectionId,
        trans_id: TransferId,
        addr: BdAddr,
        handle: Handle,
        offset: u16,
        need_rsp: bool,
        is_prep: bool,
        value: Vec<u8>,
    },
    ExecWrite { conn_id: ConnectionId, trans_id: TransferId, addr: BdAddr, canceled: bool },
    Mtu { conn_id: ConnectionId, mtu: u16 },
    Confirm { status: GattStatus, conn_id: ConnectionId, handle: Handle, value: Option<Vec<u8>> },
    ServiceUnregistered { status: GattStatus, service_handle: Handle, service_id: GattServiceId },
    ServiceCreated { status: GattStatus, service_handle: Handle, service_id: GattServiceId },
    IncludedServiceAdded { status: GattStatus, attr_handle: Handle, service_handle: Handle },
    CharacteristicAdded {
        status: GattStatus,
        attr_handle: Handle,
        service_handle: Handle,
        char_uuid: BtUuid,
    },
    DescriptorAdded {
        status: GattStatus,
        attr_handle: Handle,
        service_handle: Handle,
        descr_uuid: BtUuid,
    },
    ServiceDeleted { status: GattStatus, service_handle: Handle },
    ServiceStarted { status: GattStatus, service_handle: Handle },
    ServiceStopped { status: GattStatus, service_handle: Handle },
    PeerConnected {
        conn_id: ConnectionId,
        link_role: u8,
        addr: BdAddr,
        conn_params: GattConnParams,
    },
    PeerDisconnected { conn_id: ConnectionId, addr: BdAddr, reason: GattConnReason },
    Open { status: GattStatus },
    Close { status: GattStatus, conn_id: ConnectionId },
    Listen { conn_id: ConnectionId, congested: bool },
    Congest { conn_id: ConnectionId, congested: bool },
    ResponseComplete { status: GattStatus, handle: Handle },
    AttributeTableCreated {
        status: GattStatus,
        svc_uuid: BtUuid,
        svc_inst_id: u8,
        handles: Vec<Handle>,
    },
    AttributeValueModified { srvc_handle: Handle, attr_handle: Handle, status: GattStatus },
    ServiceChanged { status: GattStatus },
    Other,
}

/// The kind (discriminant) of a GATT-server event; the router's key.
#[derive(Debug, Clone, Copy, PartialEq, Eq, Structural)]
pub enum GattsEventKind {
    ServiceRegistered,
    Read,
    Write,
    ExecWrite,
    Mtu,
    Confirm,
    ServiceUnregistered,
    ServiceCreated,
    IncludedServiceAdded,
    CharacteristicAdded,
    DescriptorAdded,
    ServiceDeleted,
    ServiceStarted,
    ServiceStopped,
    PeerConnected,
    PeerDisconnected,
    Open,
    Close,
    Listen,
    Congest,
    ResponseComplete,
    AttributeTableCreated,
    AttributeValueModified,
    ServiceChanged,
    Other,
}

/// The kind of a GATT-server event.
pub open spec fn spec_gatts_kind(e: GattsEvent) -> GattsEventKind {
    match e {
        GattsEvent::ServiceRegistered { .. } => GattsEventKind::ServiceRegistered,
        GattsEvent::Read { .. } => GattsEventKind::Read,
        GattsEvent::Write { .. } => GattsEventKind::Write,
        GattsEvent::ExecWrite { .. } => GattsEventKind::ExecWrite,
        GattsEvent::Mtu { .. } => GattsEventKind::Mtu,
        GattsEvent::Confirm { .. } => GattsEventKind::Confirm,
        GattsEvent::ServiceUnregistered { .. } => GattsEventKind::ServiceUnregistered,
        GattsEvent::ServiceCreated { .. } => GattsEventKind::ServiceCreated,
        GattsEvent::IncludedServiceAdded { .. } => GattsEventKind::IncludedServiceAdded,
        GattsEvent::CharacteristicAdded { .. } => GattsEventKind::CharacteristicAdded,
        GattsEvent::DescriptorAdded { .. } => GattsEventKind::DescriptorAdded,
        GattsEvent::ServiceDeleted { .. } => GattsEventKind::ServiceDeleted,
        GattsEvent::ServiceStarted { .. } => GattsEventKind::ServiceStarted,
        GattsEvent::ServiceStopped { .. } => GattsEventKind::ServiceStopped,
        GattsEvent::PeerConnected { .. } => GattsEventKind::PeerConnected,
        GattsEvent::PeerDisconnected { .. } => GattsEventKind::PeerDisconnected,
        GattsEvent::Open { .. } => GattsEventKind::Open,
        GattsEvent::Close { .. } => GattsEventKind::Close,
        GattsEvent::Listen { .. } => GattsEventKind::Listen,
        GattsEvent::Congest { .. } => GattsEventKind::Congest,
        GattsEvent::ResponseComplete { .. } => GattsEventKind::ResponseComplete,
        GattsEvent::AttributeTableCreated { .. } => GattsEventKind::AttributeTableCreated,
        GattsEvent::AttributeValueModified { .. } => GattsEventKind::AttributeValueModified,
        GattsEvent::ServiceChanged { .. } => GattsEventKind::ServiceChanged,
        GattsEvent::Other => GattsEventKind::Other,
    }
}

impl GattsEvent {
    /// The kind of this event.
    pub fn kind(&self) -> (r: GattsEventKind)
        ensures
            r == spec_gatts_kind(*self),
    {
        match self {
            GattsEvent::ServiceRegistered { .. } => GattsEventKind::ServiceRegistered,
            GattsEvent::Read { .. } => GattsEventKind::Read,
            GattsEvent::Write { .. } => GattsEventKind::Write,
            GattsEvent::ExecWrite { .. } => GattsEventKind::ExecWrite,
            GattsEvent::Mtu { .. } => GattsEventKind::Mtu,
            GattsEvent::Confirm { .. } => GattsEventKind::Confirm,
            GattsEvent::ServiceUnregistered { .. } => GattsEventKind::ServiceUnregistered,
            GattsEvent::ServiceCreated { .. } => GattsEventKind::ServiceCreated,
            GattsEvent::IncludedServiceAdded { .. } => GattsEventKind::IncludedServiceAdded,
            GattsEvent::CharacteristicAdded { .. } => GattsEventKind::CharacteristicAdded,
            GattsEvent::DescriptorAdded { .. } => GattsEventKind::DescriptorAdded,
            GattsEvent::ServiceDeleted { .. } => GattsEventKind::ServiceDeleted,
            GattsEvent::ServiceStarted { .. } => GattsEventKind::ServiceStarted,
            GattsEvent::ServiceStopped { .. } => GattsEventKind::ServiceStopped,
            GattsEvent::PeerConnected { .. } => GattsEventKind::PeerConnected,
            GattsEvent::PeerDisconnected { .. } => GattsEventKind::PeerDisconnected,
            GattsEvent::Open { .. } => GattsEventKind::Open,
            GattsEvent::Close { .. } => GattsEventKind::Close,
            GattsEvent::Listen { .. } => GattsEventKind::Listen,
            GattsEvent::Congest { .. } => GattsEventKind::Congest,
            GattsEvent::ResponseComplete { .. } => GattsEventKind::ResponseComplete,
            GattsEvent::AttributeTableCreated { .. } => GattsEventKind::AttributeTableCreated,
            GattsEvent::AttributeValueModified { .. } => GattsEventKind::AttributeValueModified,
            GattsEvent::ServiceChanged { .. } => GattsEventKind::ServiceChanged,
            GattsEvent::Other => GattsEventKind::Other,
        }
    }
}

/// Whether a kind belongs to the long-lived fan-out: events of these kinds
/// are never awaited by a single request; a dispatcher drains them.
pub open spec fn spec_is_dispatcher_kind(k: GattsEventKind) -> bool {
    ||| k == GattsEventKind::Read
    ||| k == GattsEventKind::Write
    ||| k == GattsEventKind::ExecWrite
    ||| k == GattsEventKind::PeerConnected
    ||| k == GattsEventKind::PeerDisconnected
    ||| k == GattsEventKind::Mtu
}

/// A GATT-server event together with the interface it arrived on.
#[derive(Debug, Clone, PartialEq)]
pub struct GattsEventMessage(pub GattInterface, pub GattsEvent);

/// A GAP event, owned, decoupled from the host callback's lifetime.
#[derive(Debug, Clone, PartialEq)]
pub enum GapEvent {
    AdvertisingConfigured(BtStatus),
    ScanResponseConfigured(BtStatus),
    ScanParameterConfigured(BtStatus),
    RawAdvertisingConfigured(BtStatus),
    RawScanResponseConfigured(BtStatus),
    AdvertisingStarted(BtStatus),
    ScanStarted(BtStatus),
    AuthenticationComplete {
    bd_addr: BdAddr,
    status: BtStatus,
    },
    Key,
    SecurityRequest,
    PasskeyNotification {
    addr: BdAddr,
    passkey: u32,
    },
    PasskeyRequest,
    LocalIR,
    LocalER,
    NumericComparisonRequest,
    AdvertisingStopped(BtStatus),
    ScanStopped(BtStatus),
    StaticRandomAddressConfigured(BtStatus),
    ConnectionParamsConfigured {
    addr: BdAddr,
    status: BtStatus,
    min_int_ms: u32,
    max_int_ms: u32,
    latency_ms: u32,
    conn_int: u16,
    timeout_ms: u32,
    },
    PacketLengthConfigured {
    status: BtStatus,
    rx_len: u16,
    tx_len: u16,
    },
    LocalPrivacyConfigured(BtStatus),
    DeviceBondRemoved {
    bd_addr: BdAddr,
    status: BtStatus,
    },
    DeviceBondCleared(BtStatus),
    ReadRssiConfigured {
    bd_addr: BdAddr,
    rssdi: i8,
    status: BtStatus,
    },
    WhitelistUpdated {
    status: BtStatus,
    wl_operation: u32,
    },
    ChannelsConfigured(BtStatus),
    PreferredDefaultPhyConfigured(BtStatus),
    PreferredPhyConfigured(BtStatus),
    ExtendedAdvertisingRandomAddressConfigured(BtStatus),
    ExtendedAdvertisingParametersConfigured(BtStatus),
    ExtendedAdvertisingConfigured(BtStatus),
    ExtendedAdvertisingScanResponseConfigured(BtStatus),
    ExtendedAdvertisingStarted(BtStatus),
    ExtendedAdvertisingStopped(BtStatus),
    ExtendedAdvertisingRemoved(BtStatus),
    ExtendedAdvertisingCleared(BtStatus),
    PeriodicAdvertisingParametersConfigured(BtStatus),
    PeriodicAdvertisingDataSetComplete(BtStatus),
    PeriodicAdvertisingStarted(BtStatus),
    PeriodicAdvertisingStopped(BtStatus),
    PeriodicAdvertisingSyncCreated(BtStatus),
    PeriodicAdvertisingSyncCanceled(BtStatus),
    PeriodicAdvertisingSyncTerminated(BtStatus),
    PeriodicAdvertisingDeviceListAdded(BtStatus),
    PeriodicAdvertisingDeviceListRemoved(BtStatus),
    PeriodicAdvertisingDeviceListCleared(BtStatus),
    ExtendedAdvertisingScanParametersConfigured(BtStatus),
    ExtendedAdvertisingScanStarted(BtStatus),
    ExtendedAdvertisingScanStopped(BtStatus),
    ExtendedAdvertisingExtendedConnectionParamsConfigured(BtStatus),
    Other,
}

/// The kind (discriminant) of a GAP event; the router's key.
#[derive(Debug, Clone, Copy, PartialEq, Eq, Structural)]
pub enum GapEventKind {
    AdvertisingConfigured,
    ScanResponseConfigured,
    ScanParameterConfigured,
    RawAdvertisingConfigured,
    RawScanResponseConfigured,
    AdvertisingStarted,
    ScanStarted,
    AuthenticationComplete,
    Key,
    SecurityRequest,
    PasskeyNotification,
    PasskeyRequest,
    LocalIR,
    LocalER,
    NumericComparisonRequest,
    AdvertisingStopped,
    ScanStopped,
    StaticRandomAddressConfigured,
    ConnectionParamsConfigured,
    PacketLengthConfigured,
    LocalPrivacyConfigured,
    DeviceBondRemoved,
    DeviceBondCleared,
    ReadRssiConfigured,
    WhitelistUpdated,
    ChannelsConfigured,
    PreferredDefaultPhyConfigured,
    PreferredPhyConfigured,
    ExtendedAdvertisingRandomAddressConfigured,
    ExtendedAdvertisingParametersConfigured,
    ExtendedAdvertisingConfigured,
    ExtendedAdvertisingScanResponseConfigured,
    ExtendedAdvertisingStarted,
    ExtendedAdvertisingStopped,
    ExtendedAdvertisingRemoved,
    ExtendedAdvertisingCleared,
    PeriodicAdvertisingParametersConfigured,
    PeriodicAdvertisingDataSetComplete,
    PeriodicAdvertisingStarted,
    PeriodicAdvertisingStopped,
    PeriodicAdvertisingSyncCreated,
    PeriodicAdvertisingSyncCanceled,
    PeriodicAdvertisingSyncTerminated,
    PeriodicAdvertisingDeviceListAdded,
    PeriodicAdvertisingDeviceListRemoved,
    PeriodicAdvertisingDeviceListCleared,
    ExtendedAdvertisingScanParametersConfigured,
    ExtendedAdvertisingScanStarted,
    ExtendedAdvertisingScanStopped,
    ExtendedAdvertisingExtendedConnectionParamsConfigured,
    Other,
}

/// The kind of a GAP event.
pub open spec fn spec_gap_kind(e: GapEvent) -> GapEventKind {
    match e {
        GapEvent::AdvertisingConfigured(..) => GapEventKind::AdvertisingConfigured,
        GapEvent::ScanResponseConfigured(..) => GapEventKind::ScanResponseConfigured,
        GapEvent::ScanParameterConfigured(..) => GapEventKind::ScanParameterConfigured,
        GapEvent::RawAdvertisingConfigured(..) => GapEventKind::RawAdvertisingConfigured,
        GapEvent::RawScanResponseConfigured(..) => GapEventKind::RawScanResponseConfigured,
        GapEvent::AdvertisingStarted(..) => GapEventKind::AdvertisingStarted,
        GapEvent::ScanStarted(..) => GapEventKind::ScanStarted,
        GapEvent::AuthenticationComplete { .. } => GapEventKind::AuthenticationComplete,
        GapEvent::Key => GapEventKind::Key,
        GapEvent::SecurityRequest => GapEventKind::SecurityRequest,
        GapEvent::PasskeyNotification { .. } => GapEventKind::PasskeyNotification,
        GapEvent::PasskeyRequest => GapEventKind::PasskeyRequest,
        GapEvent::LocalIR => GapEventKind::LocalIR,
        GapEvent::LocalER => GapEventKind::LocalER,
        GapEvent::NumericComparisonRequest => GapEventKind::NumericComparisonRequest,
        GapEvent::AdvertisingStopped(..) => GapEventKind::AdvertisingStopped,
        GapEvent::ScanStopped(..) => GapEventKind::ScanStopped,
        GapEvent::StaticRandomAddressConfigured(..) => GapEventKind::StaticRandomAddressConfigured,
        GapEvent::ConnectionParamsConfigured { .. } => GapEventKind::ConnectionParamsConfigured,
        GapEvent::PacketLengthConfigured { .. } => GapEventKind::PacketLengthConfigured,
        GapEvent::LocalPrivacyConfigured(..) => GapEventKind::LocalPrivacyConfigured,
        GapEvent::DeviceBondRemoved { .. } => GapEventKind::DeviceBondRemoved,
        GapEvent::DeviceBondCleared(..) => GapEventKind::DeviceBondCleared,
        GapEvent::ReadRssiConfigured { .. } => GapEventKind::ReadRssiConfigured,
        GapEvent::WhitelistUpdated { .. } => GapEventKind::WhitelistUpdated,
        GapEvent::ChannelsConfigured(..) => GapEventKind::ChannelsConfigured,
        GapEvent::PreferredDefaultPhyConfigured(..) => GapEventKind::PreferredDefaultPhyConfigured,
        GapEvent::PreferredPhyConfigured(..) => GapEventKind::PreferredPhyConfigured,
        GapEvent::ExtendedAdvertisingRandomAddressConfigured(..) => GapEventKind::ExtendedAdvertisingRandomAddressConfigured,
        GapEvent::ExtendedAdvertisingParametersConfigured(..) => GapEventKind::ExtendedAdvertisingParametersConfigured,
        GapEvent::ExtendedAdvertisingConfigured(..) => GapEventKind::ExtendedAdvertisingConfigured,
        GapEvent::ExtendedAdvertisingScanResponseConfigured(..) => GapEventKind::ExtendedAdvertisingScanResponseConfigured,
        GapEvent::ExtendedAdvertisingStarted(..) => GapEventKind::ExtendedAdvertisingStarted,
        GapEvent::ExtendedAdvertisingStopped(..) => GapEventKind::ExtendedAdvertisingStopped,
        GapEvent::ExtendedAdvertisingRemoved(..) => GapEventKind::ExtendedAdvertisingRemoved,
        GapEvent::ExtendedAdvertisingCleared(..) => GapEventKind::ExtendedAdvertisingCleared,
        GapEvent::PeriodicAdvertisingParametersConfigured(..) => GapEventKind::PeriodicAdvertisingParametersConfigured,
        GapEvent::PeriodicAdvertisingDataSetComplete(..) => GapEventKind::PeriodicAdvertisingDataSetComplete,
        GapEvent::PeriodicAdvertisingStarted(..) => GapEventKind::PeriodicAdvertisingStarted,
        GapEvent::PeriodicAdvertisingStopped(..) => GapEventKind::PeriodicAdvertisingStopped,
        GapEvent::PeriodicAdvertisingSyncCreated(..) => GapEventKind::PeriodicAdvertisingSyncCreated,
        GapEvent::PeriodicAdvertisingSyncCanceled(..) => GapEventKind::PeriodicAdvertisingSyncCanceled,
        GapEvent::PeriodicAdvertisingSyncTerminated(..) => GapEventKind::PeriodicAdvertisingSyncTerminated,
        GapEvent::PeriodicAdvertisingDeviceListAdded(..) => GapEventKind::PeriodicAdvertisingDeviceListAdded,
        GapEvent::PeriodicAdvertisingDeviceListRemoved(..) => GapEventKind::PeriodicAdvertisingDeviceListRemoved,
        GapEvent::PeriodicAdvertisingDeviceListCleared(..) => GapEventKind::PeriodicAdvertisingDeviceListCleared,
        GapEvent::ExtendedAdvertisingScanParametersConfigured(..) => GapEventKind::ExtendedAdvertisingScanParametersConfigured,
        GapEvent::ExtendedAdvertisingScanStarted(..) => GapEventKind::ExtendedAdvertisingScanStarted,
        GapEvent::ExtendedAdvertisingScanStopped(..) => GapEventKind::ExtendedAdvertisingScanStopped,
        GapEvent::ExtendedAdvertisingExtendedConnectionParamsConfigured(..) => GapEventKind::ExtendedAdvertisingExtendedConnectionParamsConfigured,
        GapEvent::Other => GapEventKind::Other,
    }
}

impl GapEvent {
    /// The kind of this event.
    pub fn kind(&self) -> (r: GapEventKind)
        ensures
            r == spec_gap_kind(*self),
    {
        match self {
            GapEvent::AdvertisingConfigured(..) => GapEventKind::AdvertisingConfigured,
            GapEvent::ScanResponseConfigured(..) => GapEventKind::ScanResponseConfigured,
            GapEvent::ScanParameterConfigured(..) => GapEventKind::ScanParameterConfigured,
            GapEvent::RawAdvertisingConfigured(..) => GapEventKind::RawAdvertisingConfigured,
            GapEvent::RawScanResponseConfigured(..) => GapEventKind::RawScanResponseConfigured,
            GapEvent::AdvertisingStarted(..) => GapEventKind::AdvertisingStarted,
            GapEvent::ScanStarted(..) => GapEventKind::ScanStarted,
            GapEvent::AuthenticationComplete { .. } => GapEventKind::AuthenticationComplete,
            GapEvent::Key => GapEventKind::Key,
            GapEvent::SecurityRequest => GapEventKind::SecurityRequest,
            GapEvent::PasskeyNotification { .. } => GapEventKind::PasskeyNotification,
            GapEvent::PasskeyRequest => GapEventKind::PasskeyRequest,
            GapEvent::LocalIR => GapEventKind::LocalIR,
            GapEvent::LocalER => GapEventKind::LocalER,
            GapEvent::NumericComparisonRequest => GapEventKind::NumericComparisonRequest,
            GapEvent::AdvertisingStopped(..) => GapEventKind::AdvertisingStopped,
            GapEvent::ScanStopped(..) => GapEventKind::ScanStopped,
            GapEvent::StaticRandomAddressConfigured(..) => GapEventKind::StaticRandomAddressConfigured,
            GapEvent::ConnectionParamsConfigured { .. } => GapEventKind::ConnectionParamsConfigured,
            GapEvent::PacketLengthConfigured { .. } => GapEventKind::PacketLengthConfigured,
            GapEvent::LocalPrivacyConfigured(..) => GapEventKind::LocalPrivacyConfigured,
            GapEvent::DeviceBondRemoved { .. } => GapEventKind::DeviceBondRemoved,
            GapEvent::DeviceBondCleared(..) => GapEventKind::DeviceBondCleared,
            GapEvent::ReadRssiConfigured { .. } => GapEventKind::ReadRssiConfigured,
            GapEvent::WhitelistUpdated { .. } => GapEventKind::WhitelistUpdated,
            GapEvent::ChannelsConfigured(..) => GapEventKind::ChannelsConfigured,
            GapEvent::PreferredDefaultPhyConfigured(..) => GapEventKind::PreferredDefaultPhyConfigured,
            GapEvent::PreferredPhyConfigured(..) => GapEventKind::PreferredPhyConfigured,
            GapEvent::ExtendedAdvertisingRandomAddressConfigured(..) => GapEventKind::ExtendedAdvertisingRandomAddressConfigured,
            GapEvent::ExtendedAdvertisingParametersConfigured(..) => GapEventKind::ExtendedAdvertisingParametersConfigured,
            GapEvent::ExtendedAdvertisingConfigured(..) => GapEventKind::ExtendedAdvertisingConfigured,
            GapEvent::ExtendedAdvertisingScanResponseConfigured(..) => GapEventKind::ExtendedAdvertisingScanResponseConfigured,
            GapEvent::ExtendedAdvertisingStarted(..) => GapEventKind::ExtendedAdvertisingStarted,
            GapEvent::ExtendedAdvertisingStopped(..) => GapEventKind::ExtendedAdvertisingStopped,
            GapEvent::ExtendedAdvertisingRemoved(..) => GapEventKind::ExtendedAdvertisingRemoved,
            GapEvent::ExtendedAdvertisingCleared(..) => GapEventKind::ExtendedAdvertisingCleared,
            GapEvent::PeriodicAdvertisingParametersConfigured(..) => GapEventKind::PeriodicAdvertisingParametersConfigured,
            GapEvent::PeriodicAdvertisingDataSetComplete(..) => GapEventKind::PeriodicAdvertisingDataSetComplete,
            GapEvent::PeriodicAdvertisingStarted(..) => GapEventKind::PeriodicAdvertisingStarted,
            GapEvent::PeriodicAdvertisingStopped(..) => GapEventKind::PeriodicAdvertisingStopped,
            GapEvent::PeriodicAdvertisingSyncCreated(..) => GapEventKind::PeriodicAdvertisingSyncCreated,
            GapEvent::PeriodicAdvertisingSyncCanceled(..) => GapEventKind::PeriodicAdvertisingSyncCanceled,
            GapEvent::PeriodicAdvertisingSyncTerminated(..) => GapEventKind::PeriodicAdvertisingSyncTerminated,
            GapEvent::PeriodicAdvertisingDeviceListAdded(..) => GapEventKind::PeriodicAdvertisingDeviceListAdded,
            GapEvent::PeriodicAdvertisingDeviceListRemoved(..) => GapEventKind::PeriodicAdvertisingDeviceListRemoved,
            GapEvent::PeriodicAdvertisingDeviceListCleared(..) => GapEventKind::PeriodicAdvertisingDeviceListCleared,
            GapEvent::ExtendedAdvertisingScanParametersConfigured(..) => GapEventKind::ExtendedAdvertisingScanParametersConfigured,
            GapEvent::ExtendedAdvertisingScanStarted(..) => GapEventKind::ExtendedAdvertisingScanStarted,
            GapEvent::ExtendedAdvertisingScanStopped(..) => GapEventKind::ExtendedAdvertisingScanStopped,
            GapEvent::ExtendedAdvertisingExtendedConnectionParamsConfigured(..) => GapEventKind::ExtendedAdvertisingExtendedConnectionParamsConfigured,
            GapEvent::Other => GapEventKind::Other,
        }
    }
}
impl KindKey for GattsEventKind {
    fn same(&self, other: &Self) -> (r: bool) {
        *self == *other
    }
}

impl KindKey for GapEventKind {
    fn same(&self, other: &Self) -> (r: bool) {
        *self == *other
    }
}

} // verus!
