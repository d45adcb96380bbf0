use esp_bluedroid::attribute::AttributeInner;
use esp_bluedroid::codec::{CodecKind, U16Attr, U32Attr};
use esp_bluedroid::gatt::{Descriptor, DescriptorConfig};
use esp_bluedroid::error::Error;
use esp_bluedroid::event::{GapEvent, GattsEvent, GattsEventMessage};
use esp_bluedroid::gap::{Gap, GapConfig};
use esp_bluedroid::gatt::{CharacteristicConfig, ServiceId};
use esp_bluedroid::router::RouteOutcome;
use esp_bluedroid::server::GattServer;
use esp_bluedroid::types::{
    BdAddr, BtStatus, BtUuid, GattConnParams, GattConnReason, GattId, GattServiceId,
    GattStatus,
};

const INTERFACE: u8 = 3;

fn addr() -> BdAddr {
    BdAddr { octets: [1, 2, 3, 4, 5, 6] }
}

fn start_advertising(gap: &mut Gap, status: BtStatus) -> Result<(), Error> {
    gap.start_advertising_prepare();
    let out = gap.route_event(GapEvent::AdvertisingStarted(status));
    assert!(matches!(out, RouteOutcome::Stored));
    gap.start_advertising_complete()
}

#[test]
fn default_config_allows_one_connection() {
    let cfg = GapConfig::default();
    assert_eq!(cfg.device_name, "ESP32");
    assert!(cfg.include_name_in_advertising);
    assert!(cfg.include_txpower_in_advertising);
    assert_eq!(cfg.max_connections, Some(1));
}

#[test]
fn adv_configuration_mirrors_the_config() {
    let mut cfg = GapConfig::default();
    cfg.manufacturer_data = Some(vec![1, 2]);
    cfg.service_uuid = Some(BtUuid::Uuid16(0x180F));
    let adv = cfg.to_adv_configuration();
    assert!(!adv.set_scan_rsp);
    assert!(adv.include_name);
    assert_eq!(adv.flag, 0);
    assert_eq!(adv.manufacturer_data, Some(vec![1, 2]));
    assert_eq!(adv.service_uuid, Some(BtUuid::Uuid16(0x180F)));
    assert_eq!(adv.service_data, None);
}

#[test]
fn start_advertising_is_safe_to_repeat() {
    let mut gap = Gap::new();
    assert_eq!(start_advertising(&mut gap, BtStatus::Success), Ok(()));
    // While advertising already runs the host stack reports success again.
    assert_eq!(start_advertising(&mut gap, BtStatus::Success), Ok(()));
}

#[test]
fn start_advertising_surfaces_host_failure_and_timeout() {
    let mut gap = Gap::new();
    assert_eq!(
        start_advertising(&mut gap, BtStatus::Fail),
        Err(Error::BtStatusNotOk(BtStatus::Fail))
    );
    gap.start_advertising_prepare();
    assert_eq!(gap.start_advertising_complete(), Err(Error::Timeout));
}

#[test]
fn auto_advertising_needs_a_budget() {
    let mut gap = Gap::new();
    let srv = GattServer::new();
    let mut cfg = GapConfig::default();
    cfg.max_connections = None;
    gap.set_config(cfg);
    assert_eq!(
        gap.check_if_need_start_advertising(&srv),
        Err(Error::MaxConnectionsNotSet)
    );
}

#[test]
fn auto_advertise_on_disconnect() {
    // One connection budget; one peer connected; the peer disconnects and
    // the auto-advertiser restarts advertising.
    let mut srv = GattServer::new();
    srv.configure_global_events();
    srv.register_app_prepare(0);
    srv.route_event(GattsEventMessage(
        INTERFACE,
        GattsEvent::ServiceRegistered { status: GattStatus::Success, app_id: 0 },
    ));
    srv.register_app_complete(0).unwrap();
    let mut gap = Gap::new();

    let out = srv.handle_gatts_global_event(GattsEventMessage(
        INTERFACE,
        GattsEvent::PeerConnected {
            conn_id: 1,
            link_role: 1,
            addr: addr(),
            conn_params: GattConnParams { interval_ms: 30, latency_ms: 0, timeout_ms: 4000 },
        },
    ));
    assert_eq!(out.error, None);
    // The budget is filled: no advertising.
    assert_eq!(gap.check_if_need_start_advertising(&srv), Ok(false));

    let out = srv.handle_gatts_global_event(GattsEventMessage(
        INTERFACE,
        GattsEvent::PeerDisconnected {
            conn_id: 1,
            addr: addr(),
            reason: GattConnReason::PeerTerminated,
        },
    ));
    assert_eq!(out.error, None);
    assert_eq!(out.actions.len(), 1);
    // Zero open connections are fewer than the budget of one.
    assert_eq!(gap.check_if_need_start_advertising(&srv), Ok(true));
    assert_eq!(start_advertising(&mut gap, BtStatus::Success), Ok(()));
}

#[test]
fn attribute_cell_tracks_handle_and_updates() {
    let mut cell = AttributeInner::new(U16Attr(7));
    assert_eq!(cell.handle(), Err(Error::HandleNotSet));
    assert_eq!(cell.set_handle(42), Ok(()));
    assert_eq!(cell.handle(), Ok(42));
    // The handle is set exactly once.
    assert_eq!(cell.set_handle(43), Err(Error::HandleAlreadySet));
    assert_eq!(cell.handle(), Ok(42));

    cell.update(U16Attr(8));
    let first = cell.take_update().unwrap();
    assert_eq!(first.previous, U16Attr(7));
    assert_eq!(first.current, U16Attr(8));
    // Same value again: a fresh notification every time.
    cell.update(U16Attr(8));
    assert!(cell.take_update().is_some());
    assert!(cell.take_update().is_none());
}

#[test]
fn typed_descriptor_carries_its_codec_and_initial_value() {
    let d = Descriptor::new(
        U32Attr(0x01020304),
        DescriptorConfig { uuid: BtUuid::Uuid128(123), readable: true, writable: true },
    );
    assert_eq!(d.codec, CodecKind::U32);
    assert_eq!(d.initial, vec![4, 3, 2, 1]);
    assert_eq!(d.uuid, BtUuid::Uuid128(123));
}

#[test]
fn service_identity_round_trips_through_records() {
    let sid = ServiceId(GattServiceId {
        id: GattId { uuid: BtUuid::Uuid128(1), inst_id: 0 },
        is_primary: true,
    });
    let cfg = CharacteristicConfig {
        uuid: BtUuid::Uuid128(2),
        value_max_len: 100,
        readable: true,
        writable: true,
        broadcasted: false,
        enable_notify: true,
        description: Some(String::from("Test characteristic")),
    };
    assert!(cfg.to_gatt_characteristic().properties.indicate);
    assert!(cfg.to_gatt_characteristic().properties.notify);
    assert!(!cfg.to_gatt_characteristic().properties.broadcast);
    assert_eq!(sid.0.id.inst_id, 0);
}
