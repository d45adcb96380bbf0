use esp_bluedroid::codec::{CodecKind, U16Attr};
use esp_bluedroid::error::Error;
use esp_bluedroid::event::{GattsEvent, GattsEventMessage};
use esp_bluedroid::gatt::{CharacteristicConfig, ServiceId};
use esp_bluedroid::router::RouteOutcome;
use esp_bluedroid::server::{Action, GattServer};
use esp_bluedroid::types::{
    BdAddr, BtUuid, GattConnParams, GattConnReason, GattId, GattServiceId, GattStatus,
};

const INTERFACE: u8 = 3;

fn addr() -> BdAddr {
    BdAddr { octets: [1, 2, 3, 4, 5, 6] }
}

fn params() -> GattConnParams {
    GattConnParams { interval_ms: 30, latency_ms: 0, timeout_ms: 4000 }
}

fn service_id() -> ServiceId {
    ServiceId(GattServiceId {
        id: GattId { uuid: BtUuid::Uuid128(1), inst_id: 0 },
        is_primary: true,
    })
}

fn char_config(enable_notify: bool) -> CharacteristicConfig {
    CharacteristicConfig {
        uuid: BtUuid::Uuid128(2),
        value_max_len: 100,
        readable: true,
        writable: true,
        broadcasted: false,
        enable_notify,
        description: None,
    }
}

/// Registers app 0 on INTERFACE, a primary 128-bit service (handle 40), a
/// notifying characteristic (handle 42, raw bytes codec) with its CCCD
/// (handle 43), and starts the service.
fn registered_server() -> GattServer {
    let mut srv = GattServer::new();
    srv.configure_global_events();

    srv.register_app_prepare(0);
    let out = srv.route_event(GattsEventMessage(
        INTERFACE,
        GattsEvent::ServiceRegistered { status: GattStatus::Success, app_id: 0 },
    ));
    assert!(matches!(out, RouteOutcome::Stored));
    assert_eq!(srv.register_app_complete(0), Ok(INTERFACE));

    srv.create_service_prepare(INTERFACE, service_id(), 10);
    srv.route_event(GattsEventMessage(
        INTERFACE,
        GattsEvent::ServiceCreated {
            status: GattStatus::Success,
            service_handle: 40,
            service_id: service_id().0,
        },
    ));
    assert_eq!(srv.create_service_complete(INTERFACE, service_id(), 10), Ok(40));

    let cfg = char_config(true);
    srv.add_characteristic_prepare(40, &cfg).unwrap();
    srv.route_event(GattsEventMessage(
        INTERFACE,
        GattsEvent::CharacteristicAdded {
            status: GattStatus::Success,
            attr_handle: 42,
            service_handle: 40,
            char_uuid: cfg.uuid,
        },
    ));
    assert_eq!(
        srv.add_characteristic_complete(INTERFACE, 40, cfg, CodecKind::Bytes, &vec![],
            &Vec::new()),
        Ok(42)
    );

    // The CCCD was attached automatically; register it.
    srv.add_descriptor_prepare(42, BtUuid::Uuid16(0x2902)).unwrap();
    srv.route_event(GattsEventMessage(
        INTERFACE,
        GattsEvent::DescriptorAdded {
            status: GattStatus::Success,
            attr_handle: 43,
            service_handle: 40,
            descr_uuid: BtUuid::Uuid16(0x2902),
        },
    ));
    assert_eq!(srv.add_descriptor_complete(INTERFACE, 42, BtUuid::Uuid16(0x2902)), Ok(43));

    srv.start_service_prepare(40).unwrap();
    srv.route_event(GattsEventMessage(
        INTERFACE,
        GattsEvent::ServiceStarted { status: GattStatus::Success, service_handle: 40 },
    ));
    assert_eq!(srv.start_service_complete(40), Ok(()));

    srv
}

fn connect_peer(srv: &mut GattServer, conn_id: u16, mtu: Option<u16>) {
    let msg = GattsEventMessage(
        INTERFACE,
        GattsEvent::PeerConnected {
            conn_id,
            link_role: 1,
            addr: addr(),
            conn_params: params(),
        },
    );
    let routed = srv.route_event(msg);
    let msg = match routed {
        RouteOutcome::ToDispatcher(m) => m,
        _ => panic!("peer connection events go to the dispatcher"),
    };
    let out = srv.handle_gatts_global_event(msg);
    assert_eq!(out.error, None);
    assert_eq!(out.actions.len(), 1);
    if let Some(m) = mtu {
        let out = srv.handle_gatts_global_event(GattsEventMessage(
            INTERFACE,
            GattsEvent::Mtu { conn_id, mtu: m },
        ));
        assert_eq!(out.error, None);
    }
}

#[test]
fn register_and_start() {
    let srv = registered_server();
    // The service is registered, its characteristic and CCCD have handles
    // and registry entries with their initial values.
    assert_eq!(srv.attribute_bytes(42), Ok(vec![]));
    assert_eq!(srv.attribute_bytes(43), Ok(vec![0, 0]));
}

#[test]
fn cccd_attached_only_when_notification_enabled() {
    let mut srv = registered_server();
    // A second characteristic without notification gets no CCCD.
    let cfg = CharacteristicConfig {
        uuid: BtUuid::Uuid128(7),
        value_max_len: 10,
        readable: true,
        writable: false,
        broadcasted: false,
        enable_notify: false,
        description: None,
    };
    srv.add_characteristic_prepare(40, &cfg).unwrap();
    srv.route_event(GattsEventMessage(
        INTERFACE,
        GattsEvent::CharacteristicAdded {
            status: GattStatus::Success,
            attr_handle: 50,
            service_handle: 40,
            char_uuid: cfg.uuid,
        },
    ));
    assert_eq!(
        srv.add_characteristic_complete(INTERFACE, 40, cfg, CodecKind::U8, &vec![0],
            &Vec::new()),
        Ok(50)
    );
    assert_eq!(
        srv.add_descriptor_prepare(50, BtUuid::Uuid16(0x2902)),
        Err(Error::UnknownDescriptor)
    );
}

#[test]
fn user_descriptor_colliding_with_cccd_is_refused() {
    let mut srv = registered_server();
    let cfg = CharacteristicConfig {
        uuid: BtUuid::Uuid128(8),
        value_max_len: 10,
        readable: true,
        writable: true,
        broadcasted: false,
        enable_notify: true,
        description: None,
    };
    let user = vec![esp_bluedroid::gatt::Descriptor {
        uuid: BtUuid::Uuid16(0x2902),
        readable: true,
        writable: false,
        codec: CodecKind::Bytes,
        initial: vec![],
    }];
    srv.add_characteristic_prepare(40, &cfg).unwrap();
    srv.route_event(GattsEventMessage(
        INTERFACE,
        GattsEvent::CharacteristicAdded {
            status: GattStatus::Success,
            attr_handle: 60,
            service_handle: 40,
            char_uuid: cfg.uuid,
        },
    ));
    assert_eq!(
        srv.add_characteristic_complete(INTERFACE, 40, cfg, CodecKind::Bytes, &vec![],
            &user),
        Err(Error::DuplicateUuid)
    );
    // Nothing was retained: the handle is free.
    assert_eq!(srv.attribute_bytes(60), Err(Error::UnknownHandle(60)));
}

#[test]
fn registration_replies_are_validated() {
    let mut srv = GattServer::new();
    // Timeout: no reply arrived.
    srv.register_app_prepare(0);
    assert_eq!(srv.register_app_complete(0), Err(Error::Timeout));
    // Identity mismatch: the reply names another application id.
    srv.register_app_prepare(0);
    srv.route_event(GattsEventMessage(
        INTERFACE,
        GattsEvent::ServiceRegistered { status: GattStatus::Success, app_id: 9 },
    ));
    assert_eq!(srv.register_app_complete(0), Err(Error::IdentityMismatch));
    // Status not ok.
    srv.register_app_prepare(0);
    srv.route_event(GattsEventMessage(
        INTERFACE,
        GattsEvent::ServiceRegistered { status: GattStatus::Failure, app_id: 0 },
    ));
    assert_eq!(
        srv.register_app_complete(0),
        Err(Error::StatusNotOk(GattStatus::Failure))
    );
}

#[test]
fn duplicate_interface_is_refused() {
    let mut srv = registered_server();
    srv.register_app_prepare(1);
    srv.route_event(GattsEventMessage(
        INTERFACE,
        GattsEvent::ServiceRegistered { status: GattStatus::Success, app_id: 1 },
    ));
    assert_eq!(srv.register_app_complete(1), Err(Error::DuplicateInterface(INTERFACE)));
}

#[test]
fn duplicate_service_identity_is_refused() {
    let mut srv = registered_server();
    srv.create_service_prepare(INTERFACE, service_id(), 10);
    srv.route_event(GattsEventMessage(
        INTERFACE,
        GattsEvent::ServiceCreated {
            status: GattStatus::Success,
            service_handle: 70,
            service_id: service_id().0,
        },
    ));
    assert_eq!(
        srv.create_service_complete(INTERFACE, service_id(), 10),
        Err(Error::DuplicateService)
    );
}

#[test]
fn correlated_waiter_is_removed_when_the_operation_returns() {
    let mut srv = GattServer::new();
    srv.register_app_prepare(0);
    assert_eq!(srv.register_app_complete(0), Err(Error::Timeout));
    // The waiter is gone: a late reply finds nobody.
    let out = srv.route_event(GattsEventMessage(
        INTERFACE,
        GattsEvent::ServiceRegistered { status: GattStatus::Success, app_id: 0 },
    ));
    assert!(matches!(out, RouteOutcome::NoWaiter(_)));
}

#[test]
fn service_stop_needs_a_start_first() {
    let mut srv = registered_server();
    // Started -> Stopped -> Started again is allowed.
    srv.stop_service_prepare(40).unwrap();
    srv.route_event(GattsEventMessage(
        INTERFACE,
        GattsEvent::ServiceStopped { status: GattStatus::Success, service_handle: 40 },
    ));
    assert_eq!(srv.stop_service_complete(40), Ok(()));
    // A freshly created service cannot stop.
    srv.create_service_prepare(INTERFACE,
        ServiceId(GattServiceId {
            id: GattId { uuid: BtUuid::Uuid128(5), inst_id: 0 },
            is_primary: false,
        }), 4);
    srv.route_event(GattsEventMessage(
        INTERFACE,
        GattsEvent::ServiceCreated {
            status: GattStatus::Success,
            service_handle: 80,
            service_id: GattServiceId {
                id: GattId { uuid: BtUuid::Uuid128(5), inst_id: 0 },
                is_primary: false,
            },
        },
    ));
    srv.create_service_complete(INTERFACE,
        ServiceId(GattServiceId {
            id: GattId { uuid: BtUuid::Uuid128(5), inst_id: 0 },
            is_primary: false,
        }), 4).unwrap();
    assert_eq!(srv.stop_service_prepare(80), Err(Error::InvalidServiceState));
}

#[test]
fn read_with_small_mtu_truncates_to_effective_payload() {
    let mut srv = registered_server();
    connect_peer(&mut srv, 1, Some(23));
    srv.update_value(INTERFACE, 42, &vec![0xAB; 40]).unwrap();

    let out = srv.handle_gatts_global_event(GattsEventMessage(
        INTERFACE,
        GattsEvent::Read {
            conn_id: 1,
            trans_id: 5,
            addr: addr(),
            handle: 42,
            offset: 0,
            is_long: false,
            need_rsp: true,
        },
    ));
    assert_eq!(out.error, None);
    match &out.actions[..] {
        [Action::SendResponse { status, response, .. }] => {
            assert_eq!(*status, GattStatus::Success);
            let resp = response.as_ref().unwrap();
            // Effective payload is MTU - 1 = 22 bytes.
            assert_eq!(resp.value, vec![0xAB; 22]);
            assert_eq!(resp.offset, 0);
        }
        _ => panic!("expected exactly one read response"),
    }
}

#[test]
fn read_at_value_end_returns_empty_payload() {
    let mut srv = registered_server();
    connect_peer(&mut srv, 1, Some(23));
    srv.update_value(INTERFACE, 42, &vec![7; 10]).unwrap();
    for offset in [10u16, 11u16] {
        let out = srv.handle_gatts_global_event(GattsEventMessage(
            INTERFACE,
            GattsEvent::Read {
                conn_id: 1,
                trans_id: 5,
                addr: addr(),
                handle: 42,
                offset,
                is_long: false,
                need_rsp: true,
            },
        ));
        assert_eq!(out.error, None);
        match &out.actions[..] {
            [Action::SendResponse { status, response, .. }] => {
                assert_eq!(*status, GattStatus::Success);
                assert_eq!(response.as_ref().unwrap().value, Vec::<u8>::new());
            }
            _ => panic!("expected exactly one read response"),
        }
    }
}

#[test]
fn read_failures_answer_with_an_error_response() {
    let mut srv = registered_server();
    // Unknown handle.
    let out = srv.handle_gatts_global_event(GattsEventMessage(
        INTERFACE,
        GattsEvent::Read {
            conn_id: 1,
            trans_id: 5,
            addr: addr(),
            handle: 99,
            offset: 0,
            is_long: false,
            need_rsp: true,
        },
    ));
    assert_eq!(out.error, Some(Error::UnknownHandle(99)));
    match &out.actions[..] {
        [Action::SendResponse { status, response, .. }] => {
            assert_eq!(*status, GattStatus::Failure);
            assert!(response.is_none());
        }
        _ => panic!("expected exactly one error response"),
    }
    // Known handle but no negotiated MTU yet.
    connect_peer(&mut srv, 1, None);
    let out = srv.handle_gatts_global_event(GattsEventMessage(
        INTERFACE,
        GattsEvent::Read {
            conn_id: 1,
            trans_id: 5,
            addr: addr(),
            handle: 42,
            offset: 0,
            is_long: false,
            need_rsp: true,
        },
    ));
    assert_eq!(out.error, Some(Error::MtuUnknown(1)));
}

#[test]
fn write_without_response_stays_silent() {
    let mut srv = registered_server();
    connect_peer(&mut srv, 1, Some(23));
    let out = srv.handle_gatts_global_event(GattsEventMessage(
        INTERFACE,
        GattsEvent::Write {
            conn_id: 1,
            trans_id: 6,
            addr: addr(),
            handle: 42,
            offset: 0,
            need_rsp: false,
            is_prep: false,
            value: vec![1, 2, 3],
        },
    ));
    assert_eq!(out.error, None);
    assert!(out.actions.is_empty());
    assert_eq!(srv.attribute_bytes(42), Ok(vec![1, 2, 3]));
}

#[test]
fn prepared_write_assembles_chunks() {
    let mut srv = registered_server();
    connect_peer(&mut srv, 1, Some(100));
    for (offset, fill) in [(0u16, 1u8), (10, 2), (20, 3)] {
        let out = srv.handle_gatts_global_event(GattsEventMessage(
            INTERFACE,
            GattsEvent::Write {
                conn_id: 1,
                trans_id: 7,
                addr: addr(),
                handle: 42,
                offset,
                need_rsp: true,
                is_prep: true,
                value: vec![fill; 10],
            },
        ));
        assert_eq!(out.error, None);
        match &out.actions[..] {
            [Action::SendResponse { status, response, .. }] => {
                assert_eq!(*status, GattStatus::Success);
                // The response echoes the written chunk.
                assert_eq!(response.as_ref().unwrap().value, vec![fill; 10]);
            }
            _ => panic!("expected exactly one write response"),
        }
    }
    // Nothing applied yet.
    assert_eq!(srv.attribute_bytes(42), Ok(vec![]));
    let out = srv.handle_gatts_global_event(GattsEventMessage(
        INTERFACE,
        GattsEvent::ExecWrite { conn_id: 1, trans_id: 7, addr: addr(), canceled: false },
    ));
    assert_eq!(out.error, None);
    let mut expected = vec![1u8; 10];
    expected.extend_from_slice(&[2; 10]);
    expected.extend_from_slice(&[3; 10]);
    assert_eq!(srv.attribute_bytes(42), Ok(expected));
    // The prepare buffer is gone.
    let out = srv.handle_gatts_global_event(GattsEventMessage(
        INTERFACE,
        GattsEvent::ExecWrite { conn_id: 1, trans_id: 7, addr: addr(), canceled: false },
    ));
    assert_eq!(out.error, Some(Error::UnknownTransfer(7)));
}

#[test]
fn prepared_write_cancel_discards_the_buffer() {
    let mut srv = registered_server();
    connect_peer(&mut srv, 1, Some(100));
    srv.update_value(INTERFACE, 42, &vec![5, 5]).unwrap();
    let out = srv.handle_gatts_global_event(GattsEventMessage(
        INTERFACE,
        GattsEvent::Write {
            conn_id: 1,
            trans_id: 8,
            addr: addr(),
            handle: 42,
            offset: 0,
            need_rsp: true,
            is_prep: true,
            value: vec![0xFF, 0xFF],
        },
    ));
    assert_eq!(out.error, None);
    let out = srv.handle_gatts_global_event(GattsEventMessage(
        INTERFACE,
        GattsEvent::ExecWrite { conn_id: 1, trans_id: 8, addr: addr(), canceled: true },
    ));
    assert_eq!(out.error, None);
    // The attribute kept its value, and the buffer is gone.
    assert_eq!(srv.attribute_bytes(42), Ok(vec![5, 5]));
    let out = srv.handle_gatts_global_event(GattsEventMessage(
        INTERFACE,
        GattsEvent::ExecWrite { conn_id: 1, trans_id: 8, addr: addr(), canceled: true },
    ));
    assert_eq!(out.error, Some(Error::UnknownTransfer(8)));
}

#[test]
fn write_validated_by_the_codec() {
    let mut srv = registered_server();
    // The CCCD holds a u16: a three-byte write is refused.
    connect_peer(&mut srv, 1, Some(23));
    let out = srv.handle_gatts_global_event(GattsEventMessage(
        INTERFACE,
        GattsEvent::Write {
            conn_id: 1,
            trans_id: 9,
            addr: addr(),
            handle: 43,
            offset: 0,
            need_rsp: true,
            is_prep: false,
            value: vec![1, 2, 3],
        },
    ));
    assert_eq!(out.error, Some(Error::CodecError));
    match &out.actions[..] {
        [Action::SendResponse { status, .. }] => assert_eq!(*status, GattStatus::Failure),
        _ => panic!("expected exactly one write response"),
    }
    assert_eq!(srv.attribute_bytes(43), Ok(vec![0, 0]));
    // A two-byte write is applied.
    let out = srv.handle_gatts_global_event(GattsEventMessage(
        INTERFACE,
        GattsEvent::Write {
            conn_id: 1,
            trans_id: 9,
            addr: addr(),
            handle: 43,
            offset: 0,
            need_rsp: true,
            is_prep: false,
            value: vec![1, 0],
        },
    ));
    assert_eq!(out.error, None);
    assert_eq!(srv.attribute_bytes(43), Ok(vec![1, 0]));
}

#[test]
fn update_publishes_a_notification_every_time() {
    let mut srv = registered_server();
    srv.update_value(INTERFACE, 42, &vec![4]).unwrap();
    let first = srv.take_update(42).unwrap().unwrap();
    assert_eq!(first.previous, Vec::<u8>::new());
    assert_eq!(first.current, vec![4]);
    // The same value again still publishes a notification.
    srv.update_value(INTERFACE, 42, &vec![4]).unwrap();
    let second = srv.take_update(42).unwrap().unwrap();
    assert_eq!(second.previous, vec![4]);
    assert_eq!(second.current, vec![4]);
    // Drained: nothing pending.
    assert_eq!(srv.take_update(42), Ok(None));
}

#[test]
fn update_notification_drops_the_oldest() {
    let mut srv = registered_server();
    srv.update_value(INTERFACE, 42, &vec![1]).unwrap();
    srv.update_value(INTERFACE, 42, &vec![2]).unwrap();
    // Only the newest change is pending.
    let u = srv.take_update(42).unwrap().unwrap();
    assert_eq!(u.previous, vec![1]);
    assert_eq!(u.current, vec![2]);
    assert_eq!(srv.take_update(42), Ok(None));
}

#[test]
fn indicate_to_two_peers_truncates_per_connection() {
    let mut srv = registered_server();
    connect_peer(&mut srv, 1, Some(23));
    connect_peer(&mut srv, 2, Some(100));
    let value = vec![9u8; 50];
    let plan = srv.update_value(INTERFACE, 42, &value).unwrap();
    assert_eq!(plan.items.len(), 2);
    assert!(plan.skipped.is_empty());
    let one = plan.items.iter().find(|i| i.conn_id == 1).unwrap();
    assert_eq!(one.payload, vec![9u8; 23]);
    assert!(one.truncated);
    let two = plan.items.iter().find(|i| i.conn_id == 2).unwrap();
    assert_eq!(two.payload, vec![9u8; 50]);
    assert!(!two.truncated);

    // Await both confirmations through the correlated waiter.
    srv.confirm_prepare();
    let mut confirmed = 0;
    for item in &plan.items {
        let out = srv.route_event(GattsEventMessage(
            INTERFACE,
            GattsEvent::Confirm {
                status: GattStatus::Success,
                conn_id: item.conn_id,
                handle: item.handle,
                value: None,
            },
        ));
        assert!(matches!(out, RouteOutcome::Stored));
        assert_eq!(srv.confirm_complete(item.conn_id, item.handle), Ok(()));
        confirmed += 1;
    }
    srv.confirm_finish();
    assert_eq!(GattServer::indication_outcome(confirmed, 0), Ok(()));
    assert_eq!(
        GattServer::indication_outcome(1, 1),
        Err(Error::IndicationFailed)
    );
}

#[test]
fn peer_without_mtu_is_skipped_in_indications() {
    let mut srv = registered_server();
    connect_peer(&mut srv, 1, None);
    connect_peer(&mut srv, 2, Some(100));
    let plan = srv.update_value(INTERFACE, 42, &vec![1, 2, 3]).unwrap();
    assert_eq!(plan.items.len(), 1);
    assert_eq!(plan.items[0].conn_id, 2);
    assert_eq!(plan.skipped, vec![1]);
}

#[test]
fn connections_live_under_one_application() {
    let mut srv = registered_server();
    connect_peer(&mut srv, 1, Some(23));
    // The same connection id under another interface is refused.
    let out = srv.handle_gatts_global_event(GattsEventMessage(
        9,
        GattsEvent::PeerConnected {
            conn_id: 1,
            link_role: 1,
            addr: addr(),
            conn_params: params(),
        },
    ));
    assert_eq!(out.error, Some(Error::UnknownInterface(9)));
    // Disconnecting an unknown connection is reported.
    let out = srv.handle_gatts_global_event(GattsEventMessage(
        INTERFACE,
        GattsEvent::PeerDisconnected { conn_id: 7, addr: addr(), reason: GattConnReason::Unknown },
    ));
    assert_eq!(out.error, Some(Error::UnknownConnection(7)));
}

#[test]
fn disconnect_broadcasts_the_change() {
    let mut srv = registered_server();
    connect_peer(&mut srv, 1, Some(23));
    let out = srv.handle_gatts_global_event(GattsEventMessage(
        INTERFACE,
        GattsEvent::PeerDisconnected {
            conn_id: 1,
            addr: addr(),
            reason: GattConnReason::PeerTerminated,
        },
    ));
    assert_eq!(out.error, None);
    assert_eq!(out.actions.len(), 1);
    assert!(matches!(
        out.actions[0],
        Action::Broadcast(esp_bluedroid::connection::ConnectionStatus::Disconnected(_))
    ));
}

#[test]
fn response_completion_is_validated() {
    let mut srv = registered_server();
    srv.send_response_prepare();
    srv.route_event(GattsEventMessage(
        INTERFACE,
        GattsEvent::ResponseComplete { status: GattStatus::Success, handle: 42 },
    ));
    assert_eq!(srv.send_response_complete(42), Ok(()));
    // A completion naming another handle is a mismatch.
    srv.send_response_prepare();
    srv.route_event(GattsEventMessage(
        INTERFACE,
        GattsEvent::ResponseComplete { status: GattStatus::Success, handle: 9 },
    ));
    assert_eq!(srv.send_response_complete(42), Err(Error::IdentityMismatch));
}

#[test]
fn typed_access_goes_through_the_codec() {
    let mut srv = registered_server();
    // The CCCD holds a u16 (handle 43).
    let v: U16Attr = srv.read_typed(43).unwrap();
    assert_eq!(v, U16Attr(0));
    srv.update_typed(INTERFACE, 43, &U16Attr(0x0102)).unwrap();
    assert_eq!(srv.attribute_bytes(43), Ok(vec![2, 1]));
    let v: U16Attr = srv.read_typed(43).unwrap();
    assert_eq!(v, U16Attr(0x0102));
}

#[test]
fn register_and_start_u16_characteristic() {
    // app_id 0; 128-bit service UUID 1, primary, ten handles; u16
    // characteristic with UUID 2, initial zero, readable + writable +
    // notifying.  Handles are assigned to the service, the characteristic
    // and its CCCD, and the service ends up started.
    let mut srv = GattServer::new();
    srv.configure_global_events();
    srv.register_app_prepare(0);
    srv.route_event(GattsEventMessage(
        INTERFACE,
        GattsEvent::ServiceRegistered { status: GattStatus::Success, app_id: 0 },
    ));
    let interface = srv.register_app_complete(0).unwrap();

    srv.create_service_prepare(interface, service_id(), 10);
    srv.route_event(GattsEventMessage(
        interface,
        GattsEvent::ServiceCreated {
            status: GattStatus::Success,
            service_handle: 40,
            service_id: service_id().0,
        },
    ));
    let service_handle = srv.create_service_complete(interface, service_id(), 10).unwrap();
    assert_eq!(
        srv.service_state(service_handle),
        Ok(esp_bluedroid::gatt::ServiceState::Created)
    );

    let cfg = char_config(true);
    srv.add_characteristic_prepare(service_handle, &cfg).unwrap();
    srv.route_event(GattsEventMessage(
        interface,
        GattsEvent::CharacteristicAdded {
            status: GattStatus::Success,
            attr_handle: 42,
            service_handle,
            char_uuid: cfg.uuid,
        },
    ));
    let char_handle = srv.add_characteristic_complete(interface, service_handle, cfg,
        CodecKind::U16, &vec![0, 0], &Vec::new()).unwrap();
    assert_eq!(srv.attribute_bytes(char_handle), Ok(vec![0, 0]));

    srv.add_descriptor_prepare(char_handle, BtUuid::Uuid16(0x2902)).unwrap();
    srv.route_event(GattsEventMessage(
        interface,
        GattsEvent::DescriptorAdded {
            status: GattStatus::Success,
            attr_handle: 43,
            service_handle,
            descr_uuid: BtUuid::Uuid16(0x2902),
        },
    ));
    let cccd_handle = srv
        .add_descriptor_complete(interface, char_handle, BtUuid::Uuid16(0x2902))
        .unwrap();
    assert_eq!(cccd_handle, 43);

    srv.start_service_prepare(service_handle).unwrap();
    srv.route_event(GattsEventMessage(
        interface,
        GattsEvent::ServiceStarted { status: GattStatus::Success, service_handle },
    ));
    srv.start_service_complete(service_handle).unwrap();
    assert_eq!(
        srv.service_state(service_handle),
        Ok(esp_bluedroid::gatt::ServiceState::Started)
    );
    // The typed view reads the initial value.
    let v: U16Attr = srv.read_typed(char_handle).unwrap();
    assert_eq!(v, U16Attr(0));
}

#[test]
fn automatic_descriptors_carry_their_initial_values() {
    // Broadcasting adds the SCCD (initially one), notification the CCCD
    // (initially zero), and a description the read-only user description.
    let mut srv = registered_server();
    let cfg = CharacteristicConfig {
        uuid: BtUuid::Uuid128(9),
        value_max_len: 20,
        readable: true,
        writable: true,
        broadcasted: true,
        enable_notify: true,
        description: Some(String::from("hi")),
    };
    srv.add_characteristic_prepare(40, &cfg).unwrap();
    srv.route_event(GattsEventMessage(
        INTERFACE,
        GattsEvent::CharacteristicAdded {
            status: GattStatus::Success,
            attr_handle: 70,
            service_handle: 40,
            char_uuid: cfg.uuid,
        },
    ));
    srv.add_characteristic_complete(INTERFACE, 40, cfg, CodecKind::Bytes, &vec![],
        &Vec::new()).unwrap();
    let mut next = 71u16;
    for (uuid, expected) in [
        (BtUuid::Uuid16(0x2902), vec![0u8, 0]),
        (BtUuid::Uuid16(0x2903), vec![1u8, 0]),
        (BtUuid::Uuid16(0x2901), vec![0x68, 0x69]),
    ] {
        srv.add_descriptor_prepare(70, uuid).unwrap();
        srv.route_event(GattsEventMessage(
            INTERFACE,
            GattsEvent::DescriptorAdded {
                status: GattStatus::Success,
                attr_handle: next,
                service_handle: 40,
                descr_uuid: uuid,
            },
        ));
        assert_eq!(srv.add_descriptor_complete(INTERFACE, 70, uuid), Ok(next));
        assert_eq!(srv.attribute_bytes(next), Ok(expected));
        next += 1;
    }
}

#[test]
fn prepared_write_cannot_grow_past_the_largest_attribute() {
    let mut srv = registered_server();
    connect_peer(&mut srv, 1, Some(23));
    let out = srv.handle_gatts_global_event(GattsEventMessage(
        INTERFACE,
        GattsEvent::Write {
            conn_id: 1,
            trans_id: 11,
            addr: addr(),
            handle: 42,
            offset: 595,
            need_rsp: true,
            is_prep: true,
            value: vec![1; 10],
        },
    ));
    assert_eq!(out.error, Some(Error::CodecError));
    // Nothing was buffered: executing the transfer finds no buffer.
    let out = srv.handle_gatts_global_event(GattsEventMessage(
        INTERFACE,
        GattsEvent::ExecWrite { conn_id: 1, trans_id: 11, addr: addr(), canceled: false },
    ));
    assert_eq!(out.error, Some(Error::UnknownTransfer(11)));
}
