//! The GATT server core: the global attribute registry, the registered
//! object graph, open connections, prepare-write buffers and the event
//! router; and the dispatcher that turns host-stack events into state
//! changes and actions.
//!
//! The dispatcher processes events serially, in arrival order.  Each handler
//! returns the actions the surrounding program must perform (send a
//! response, broadcast a connection status) next to the state change; an
//! error never terminates the dispatcher, it fails only the one event.

use vstd::prelude::*;
use crate::codec::{codec_accepts, codec_check, CodecKind};
use crate::connection::{ConnectionInner, ConnectionStatus};
use crate::error::Error;
use crate::event::{spec_gatts_kind, GattsEvent, GattsEventKind, GattsEventMessage};
use crate::gatt::{AppRecord, CharacteristicRecord, DescriptorRecord, ServiceRecord, CCCD_UUID};
use crate::router::{RouteOutcome, Router, Waiter};
use crate::types::{BtUuid, ConnectionId, GattInterface, GattStatus, Handle, TransferId,
    MAX_ATTR_LEN};

verus! {

/// One published change of an attribute's bytes.
#[derive(Debug, Clone, PartialEq)]
pub struct ByteUpdate {
    pub previous: Vec<u8>,
    pub current: Vec<u8>,
}

/// One attribute in the global registry: the handle the host stack
/// assigned, the codec that validates peer writes, the current value bytes,
/// and the pending update notification (capacity one, drop-oldest).
#[derive(Debug, Clone, PartialEq)]
pub struct AttrEntry {
    pub handle: Handle,
    pub codec: CodecKind,
    pub value: Vec<u8>,
    pub pending: Option<ByteUpdate>,
}

/// A prepare-write transfer being assembled chunk by chunk.
#[derive(Debug, Clone, PartialEq)]
pub struct PrepareWriteBuffer {
    pub trans_id: TransferId,
    pub handle: Handle,
    pub value: Vec<u8>,
}

/// The response payload of a read or write response.
#[derive(Debug, Clone, PartialEq)]
pub struct AttResponse {
    pub attr_handle: Handle,
    pub auth_req: u8,
    pub offset: u16,
    pub value: Vec<u8>,
}

/// What the surrounding program must do after an event was dispatched.
#[derive(Debug, Clone, PartialEq)]
pub enum Action {
    /// Send a response to the peer through the host stack.
    SendResponse {
        interface: GattInterface,
        conn_id: ConnectionId,
        trans_id: TransferId,
        attr_handle: Handle,
        status: GattStatus,
        response: Option<AttResponse>,
    },
    /// Publish a connection-status change on the server-wide channel and on
    /// the GAP-facing channel.
    Broadcast(ConnectionStatus),
}

/// The result of dispatching one event: actions to perform, and the error
/// to log if the event failed.
#[derive(Debug, Clone, PartialEq)]
pub struct DispatchOutcome {
    pub actions: Vec<Action>,
    pub error: Option<Error>,
}

/// The GATT server state.
pub struct GattServer {
    pub apps: Vec<AppRecord>,
    pub services: Vec<ServiceRecord>,
    pub characteristics: Vec<CharacteristicRecord>,
    pub descriptors: Vec<DescriptorRecord>,
    pub connections: Vec<ConnectionInner>,
    pub registry: Vec<AttrEntry>,
    pub write_buffers: Vec<PrepareWriteBuffer>,
    pub router: Router<GattsEventKind, GattsEventMessage>,
}

impl GattServer {
    // ----- the registry -----

    /// Every handle appears at most once in the global registry.
    pub open spec fn registry_unique(self) -> bool {
        forall|i: int, j: int| 0 <= i < j < self.registry@.len()
            ==> #[trigger] self.registry@[i].handle != #[trigger] self.registry@[j].handle
    }

    /// Whether the registry holds an attribute with this handle.
    pub open spec fn registry_has(self, h: Handle) -> bool {
        exists|i: int| 0 <= i < self.registry@.len()
            && #[trigger] self.registry@[i].handle == h
    }

    /// The registry index of the attribute with this handle.
    pub open spec fn attr_index(self, h: Handle) -> int {
        choose|i: int| 0 <= i < self.registry@.len()
            && #[trigger] self.registry@[i].handle == h
    }

    /// The registry entry for this handle.
    pub open spec fn attr_at(self, h: Handle) -> AttrEntry {
        self.registry@[self.attr_index(h)]
    }

    /// In a well-formed registry a known index is the index the handle
    /// resolves to.
    pub proof fn lemma_attr_at(self, h: Handle, i: int)
        requires
            self.registry_unique(),
            0 <= i < self.registry@.len(),
            self.registry@[i].handle == h,
        ensures
            self.registry_has(h),
            self.attr_index(h) == i,
            self.attr_at(h) == self.registry@[i],
    {
        assert(self.registry_has(h));
        let j = self.attr_index(h);
        if i < j {
            assert(self.registry@[i].handle != self.registry@[j].handle);
        } else if j < i {
            assert(self.registry@[j].handle != self.registry@[i].handle);
        }
    }

    // ----- applications -----

    /// Every interface identifies at most one registered application.
    pub open spec fn apps_unique(self) -> bool {
        forall|i: int, j: int| 0 <= i < j < self.apps@.len()
            ==> #[trigger] self.apps@[i].interface != #[trigger] self.apps@[j].interface
    }

    /// Whether an application is registered on this interface.
    pub open spec fn has_app(self, interface: GattInterface) -> bool {
        exists|i: int| 0 <= i < self.apps@.len()
            && #[trigger] self.apps@[i].interface == interface
    }

    /// The index of the application on this interface.
    pub open spec fn app_index(self, interface: GattInterface) -> int {
        choose|i: int| 0 <= i < self.apps@.len()
            && #[trigger] self.apps@[i].interface == interface
    }

    // ----- connections -----

    /// Every connection id identifies at most one open connection, across
    /// all applications.
    pub open spec fn connections_unique(self) -> bool {
        forall|i: int, j: int| 0 <= i < j < self.connections@.len()
            ==> #[trigger] self.connections@[i].id != #[trigger] self.connections@[j].id
    }

    /// Every open connection belongs to a registered application.
    pub open spec fn connections_owned(self) -> bool {
        forall|i: int| 0 <= i < self.connections@.len()
            ==> self.has_app(#[trigger] self.connections@[i].interface)
    }

    /// Whether this application has an open connection with this id.
    pub open spec fn has_conn(self, interface: GattInterface, id: ConnectionId) -> bool {
        exists|i: int| 0 <= i < self.connections@.len()
            && #[trigger] self.connections@[i].interface == interface
            && #[trigger] self.connections@[i].id == id
    }

    /// The index of that connection.
    pub open spec fn conn_index(self, interface: GattInterface, id: ConnectionId) -> int {
        choose|i: int| 0 <= i < self.connections@.len()
            && #[trigger] self.connections@[i].interface == interface
            && #[trigger] self.connections@[i].id == id
    }

    /// That connection.
    pub open spec fn conn_at(self, interface: GattInterface, id: ConnectionId)
        -> ConnectionInner {
        self.connections@[self.conn_index(interface, id)]
    }

    /// In a well-formed connection set a known index is the index the pair
    /// resolves to.
    pub proof fn lemma_conn_at(self, interface: GattInterface, id: ConnectionId, i: int)
        requires
            self.connections_unique(),
            0 <= i < self.connections@.len(),
            self.connections@[i].interface == interface,
            self.connections@[i].id == id,
        ensures
            self.has_conn(interface, id),
            self.conn_index(interface, id) == i,
            self.conn_at(interface, id) == self.connections@[i],
    {
        assert(self.has_conn(interface, id));
        let j = self.conn_index(interface, id);
        if i < j {
            assert(self.connections@[i].id != self.connections@[j].id);
        } else if j < i {
            assert(self.connections@[j].id != self.connections@[i].id);
        }
    }

    // ----- services, characteristics, descriptors -----

    /// Every service handle identifies at most one service, and every
    /// (interface, identity) pair at most one service.
    pub open spec fn services_unique(self) -> bool {
        &&& forall|i: int, j: int| 0 <= i < j < self.services@.len()
            ==> #[trigger] self.services@[i].handle != #[trigger] self.services@[j].handle
        &&& forall|i: int, j: int| 0 <= i < j < self.services@.len()
            ==> !(#[trigger] self.services@[i].interface == #[trigger] self.services@[j].interface
                && self.services@[i].id == self.services@[j].id)
    }

    /// Whether a service with this handle exists.
    pub open spec fn has_service(self, h: Handle) -> bool {
        exists|i: int| 0 <= i < self.services@.len()
            && #[trigger] self.services@[i].handle == h
    }

    /// The index of the service with this handle.
    pub open spec fn service_index(self, h: Handle) -> int {
        choose|i: int| 0 <= i < self.services@.len()
            && #[trigger] self.services@[i].handle == h
    }

    /// In a well-formed service set a known index is the index the handle
    /// resolves to.
    pub proof fn lemma_service_at(self, h: Handle, i: int)
        requires
            self.services_unique(),
            0 <= i < self.services@.len(),
            self.services@[i].handle == h,
        ensures
            self.has_service(h),
            self.service_index(h) == i,
    {
        assert(self.has_service(h));
        let j = self.service_index(h);
        if i < j {
            assert(self.services@[i].handle != self.services@[j].handle);
        } else if j < i {
            assert(self.services@[j].handle != self.services@[i].handle);
        }
    }

    /// Every handle identifies at most one characteristic.
    pub open spec fn characteristics_unique(self) -> bool {
        forall|i: int, j: int| 0 <= i < j < self.characteristics@.len()
            ==> #[trigger] self.characteristics@[i].handle
                != #[trigger] self.characteristics@[j].handle
    }

    /// Every registered characteristic's handle sits in the global registry.
    pub open spec fn characteristics_registered(self) -> bool {
        forall|i: int| 0 <= i < self.characteristics@.len()
            ==> self.registry_has(#[trigger] self.characteristics@[i].handle)
    }

    /// Every descriptor whose registration completed sits in the global
    /// registry.
    pub open spec fn descriptors_registered(self) -> bool {
        forall|i: int| 0 <= i < self.descriptors@.len()
            ==> ((#[trigger] self.descriptors@[i].handle) matches Some(h)
                ==> self.registry_has(h))
    }

    /// Whether a characteristic carries a descriptor with this UUID.
    pub open spec fn char_has_descriptor(self, char_handle: Handle, uuid: BtUuid) -> bool {
        exists|i: int| 0 <= i < self.descriptors@.len()
            && #[trigger] self.descriptors@[i].char_handle == char_handle
            && self.descriptors@[i].uuid == uuid
    }

    /// Every characteristic with notification enabled carries a Client
    /// Characteristic Configuration descriptor.
    pub open spec fn notify_has_cccd(self) -> bool {
        forall|i: int| 0 <= i < self.characteristics@.len()
            ==> ((#[trigger] self.characteristics@[i].config.enable_notify)
                ==> self.char_has_descriptor(
                    self.characteristics@[i].handle,
                    BtUuid::Uuid16(CCCD_UUID),
                ))
    }

    // ----- prepare-write buffers -----

    /// Every (characteristic, UUID) pair identifies at most one descriptor.
    pub open spec fn descriptors_unique(self) -> bool {
        forall|i: int, j: int| 0 <= i < j < self.descriptors@.len()
            ==> !(#[trigger] self.descriptors@[i].char_handle
                == #[trigger] self.descriptors@[j].char_handle
                && self.descriptors@[i].uuid == self.descriptors@[j].uuid)
    }

    /// Every descriptor decorates a characteristic that is registered.
    pub open spec fn descriptors_attached(self) -> bool {
        forall|i: int| 0 <= i < self.descriptors@.len()
            ==> self.registry_has(#[trigger] self.descriptors@[i].char_handle)
    }

    /// Every transfer id identifies at most one prepare buffer.
    pub open spec fn buffers_unique(self) -> bool {
        forall|i: int, j: int| 0 <= i < j < self.write_buffers@.len()
            ==> #[trigger] self.write_buffers@[i].trans_id
                != #[trigger] self.write_buffers@[j].trans_id
    }

    /// Whether a prepare buffer exists for this transfer.
    pub open spec fn has_buffer(self, t: TransferId) -> bool {
        exists|i: int| 0 <= i < self.write_buffers@.len()
            && #[trigger] self.write_buffers@[i].trans_id == t
    }

    /// The index of the prepare buffer for this transfer.
    pub open spec fn buffer_index(self, t: TransferId) -> int {
        choose|i: int| 0 <= i < self.write_buffers@.len()
            && #[trigger] self.write_buffers@[i].trans_id == t
    }

    /// The prepare buffer for this transfer.
    pub open spec fn buffer_at(self, t: TransferId) -> PrepareWriteBuffer {
        self.write_buffers@[self.buffer_index(t)]
    }

    /// In a well-formed buffer set a known index is the index the transfer
    /// resolves to.
    pub proof fn lemma_buffer_at(self, t: TransferId, i: int)
        requires
            self.buffers_unique(),
            0 <= i < self.write_buffers@.len(),
            self.write_buffers@[i].trans_id == t,
        ensures
            self.has_buffer(t),
            self.buffer_index(t) == i,
            self.buffer_at(t) == self.write_buffers@[i],
    {
        assert(self.has_buffer(t));
        let j = self.buffer_index(t);
        if i < j {
            assert(self.write_buffers@[i].trans_id != self.write_buffers@[j].trans_id);
        } else if j < i {
            assert(self.write_buffers@[j].trans_id != self.write_buffers@[i].trans_id);
        }
    }

    /// The whole server is well-formed.
    pub open spec fn wf(self) -> bool {
        &&& self.registry_unique()
        &&& self.apps_unique()
        &&& self.connections_unique()
        &&& self.connections_owned()
        &&& self.services_unique()
        &&& self.characteristics_unique()
        &&& self.characteristics_registered()
        &&& self.descriptors_registered()
        &&& self.notify_has_cccd()
        &&& self.descriptors_unique()
        &&& self.descriptors_attached()
        &&& self.buffers_unique()
        &&& self.router.wf()
    }

    /// A fresh server: nothing registered, nothing connected, an empty
    /// router.
    pub fn new() -> (r: GattServer)
        ensures
            r.wf(),
            r.apps@.len() == 0,
            r.services@.len() == 0,
            r.characteristics@.len() == 0,
            r.descriptors@.len() == 0,
            r.connections@.len() == 0,
            r.registry@.len() == 0,
            r.write_buffers@.len() == 0,
            forall|k: GattsEventKind| !r.router.live(k),
    {
        GattServer {
            apps: Vec::new(),
            services: Vec::new(),
            characteristics: Vec::new(),
            descriptors: Vec::new(),
            connections: Vec::new(),
            registry: Vec::new(),
            write_buffers: Vec::new(),
            router: Router::new(),
        }
    }

    // ----- exec lookups -----

    /// Find the registry index of a handle.
    fn find_attr(&self, h: Handle) -> (r: Option<usize>)
        ensures
            match r {
                Some(i) => i < self.registry@.len() && self.registry@[i as int].handle == h,
                None => !self.registry_has(h),
            },
    {
        let n = self.registry.len();
        let mut i: usize = 0;
        while i < n
            invariant
                n == self.registry@.len(),
                i <= n,
                forall|j: int| 0 <= j < i ==> #[trigger] self.registry@[j].handle != h,
            decreases n - i,
        {
            if self.registry[i].handle == h {
                return Some(i);
            }
            i = i + 1;
        }
        None
    }

    /// Find the index of the application on an interface.
    fn find_app(&self, interface: GattInterface) -> (r: Option<usize>)
        ensures
            match r {
                Some(i) => i < self.apps@.len()
                    && self.apps@[i as int].interface == interface,
                None => !self.has_app(interface),
            },
    {
        let n = self.apps.len();
        let mut i: usize = 0;
        while i < n
            invariant
                n == self.apps@.len(),
                i <= n,
                forall|j: int| 0 <= j < i ==> #[trigger] self.apps@[j].interface != interface,
            decreases n - i,
        {
            if self.apps[i].interface == interface {
                return Some(i);
            }
            i = i + 1;
        }
        None
    }

    /// Find the index of a connection of an application.
    fn find_conn(&self, interface: GattInterface, id: ConnectionId) -> (r: Option<usize>)
        ensures
            match r {
                Some(i) => i < self.connections@.len()
                    && self.connections@[i as int].interface == interface
                    && self.connections@[i as int].id == id,
                None => !self.has_conn(interface, id),
            },
    {
        let n = self.connections.len();
        let mut i: usize = 0;
        while i < n
            invariant
                n == self.connections@.len(),
                i <= n,
                forall|j: int| 0 <= j < i
                    ==> !(#[trigger] self.connections@[j].interface == interface
                        && self.connections@[j].id == id),
            decreases n - i,
        {
            if self.connections[i].interface == interface && self.connections[i].id == id {
                return Some(i);
            }
            i = i + 1;
        }
        None
    }

    /// Find the index of the prepare buffer for a transfer.
    fn find_buffer(&self, t: TransferId) -> (r: Option<usize>)
        ensures
            match r {
                Some(i) => i < self.write_buffers@.len()
                    && self.write_buffers@[i as int].trans_id == t,
                None => !self.has_buffer(t),
            },
    {
        let n = self.write_buffers.len();
        let mut i: usize = 0;
        while i < n
            invariant
                n == self.write_buffers@.len(),
                i <= n,
                forall|j: int| 0 <= j < i
                    ==> #[trigger] self.write_buffers@[j].trans_id != t,
            decreases n - i,
        {
            if self.write_buffers[i].trans_id == t {
                return Some(i);
            }
            i = i + 1;
        }
        None
    }

    /// Find the index of the service with a handle.
    fn find_service(&self, h: Handle) -> (r: Option<usize>)
        ensures
            match r {
                Some(i) => i < self.services@.len()
                    && self.services@[i as int].handle == h,
                None => !self.has_service(h),
            },
    {
        let n = self.services.len();
        let mut i: usize = 0;
        while i < n
            invariant
                n == self.services@.len(),
                i <= n,
                forall|j: int| 0 <= j < i ==> #[trigger] self.services@[j].handle != h,
            decreases n - i,
        {
            if self.services[i].handle == h {
                return Some(i);
            }
            i = i + 1;
        }
        None
    }
}

/// What serving a read must look like, seen from outside.
pub open spec fn spec_read_outcome(
    pre: GattServer,
    interface: GattInterface,
    conn_id: ConnectionId,
    trans_id: TransferId,
    handle: Handle,
    offset: u16,
    need_rsp: bool,
    r: DispatchOutcome,
) -> bool {
    &&& (!need_rsp ==> r.actions@.len() == 0 && r.error is None)
    &&& (need_rsp && pre.spec_read_error(interface, conn_id, handle) is None ==> {
                &&& r.error is None
                &&& r.actions@.len() == 1
                &&& (r.actions@[0] matches Action::SendResponse {
                    interface: i2, conn_id: c2, trans_id: t2, attr_handle: h2,
                    status, response,
                } && i2 == interface && c2 == conn_id && t2 == trans_id && h2 == handle
                    && status == GattStatus::Success
                    && (response matches Some(resp)
                        && resp.attr_handle == handle
                        && resp.auth_req == 0
                        && resp.offset == offset
                        && resp.value@ == spec_read_window(
                            pre.attr_at(handle).value@,
                            offset,
                            pre.spec_conn_mtu(interface, conn_id),
                        )))
            })
    &&& (need_rsp && pre.spec_read_error(interface, conn_id, handle) is Some ==> {
                &&& r.error == pre.spec_read_error(interface, conn_id, handle)
                &&& r.actions@.len() == 1
                &&& (r.actions@[0] matches Action::SendResponse {
                    interface: i2, conn_id: c2, trans_id: t2, attr_handle: h2,
                    status, response,
                } && i2 == interface && c2 == conn_id && t2 == trans_id && h2 == handle
                    && status == GattStatus::Failure && response is None)
            })
}

/// What recording a negotiated MTU must look like.
pub open spec fn spec_mtu_outcome(
    pre: GattServer,
    post: GattServer,
    interface: GattInterface,
    conn_id: ConnectionId,
    mtu: u16,
    r: DispatchOutcome,
) -> bool {
    &&& (post.wf())
    &&& (r.actions@.len() == 0)
    &&& (!pre.has_app(interface) ==> r.error == Some(Error::UnknownInterface(interface))
                && post == pre)
    &&& (pre.has_app(interface) && !pre.has_conn(interface, conn_id)
                ==> r.error == Some(Error::UnknownConnection(conn_id))
                    && post == pre)
    &&& (pre.has_app(interface) && pre.has_conn(interface, conn_id) ==> {
                &&& r.error is None
                &&& post.connections@ == pre.connections@.update(
                    pre.conn_index(interface, conn_id),
                    (ConnectionInner {
                        mtu: Some(mtu),
                        ..pre.conn_at(interface, conn_id)
                    }),
                )
                &&& post.apps == pre.apps
                &&& post.services == pre.services
                &&& post.characteristics == pre.characteristics
                &&& post.descriptors == pre.descriptors
                &&& post.registry == pre.registry
                &&& post.write_buffers == pre.write_buffers
                &&& post.router == pre.router
            })
}

/// What serving a write must look like.
pub open spec fn spec_write_outcome(
    pre: GattServer,
    post: GattServer,
    interface: GattInterface,
    conn_id: ConnectionId,
    trans_id: TransferId,
    handle: Handle,
    offset: u16,
    need_rsp: bool,
    is_prep: bool,
    value: Seq<u8>,
    r: DispatchOutcome,
) -> bool {
    &&& (post.wf())
    &&& (post.apps == pre.apps)
    &&& (post.services == pre.services)
    &&& (post.characteristics == pre.characteristics)
    &&& (post.descriptors == pre.descriptors)
    &&& (post.connections == pre.connections)
    &&& (post.router == pre.router)
    &&& (!need_rsp ==> r.actions@.len() == 0)
    &&& (need_rsp ==> r.actions@.len() == 1
                && (r.actions@[0] matches Action::SendResponse {
                    interface: i2, conn_id: c2, trans_id: t2, attr_handle: h2,
                    status, response,
                } && i2 == interface && c2 == conn_id && t2 == trans_id && h2 == handle
                    && status == (if r.error is None {
                        GattStatus::Success
                    } else {
                        GattStatus::Failure
                    })
                    && (response matches Some(resp)
                        && resp.attr_handle == handle
                        && resp.auth_req == 0
                        && resp.offset == offset
                        && resp.value@ == value)))
    &&& (offset as int + value.len() > MAX_ATTR_LEN as int ==> {
                &&& r.error == Some(Error::CodecError)
                &&& post.registry == pre.registry
                &&& post.write_buffers == pre.write_buffers
            })
    &&& (offset as int + value.len() <= MAX_ATTR_LEN as int && is_prep ==> {
                &&& r.error is None
                &&& post.registry == pre.registry
                &&& post.has_buffer(trans_id)
                &&& post.buffer_at(trans_id).value@ == spec_spliced(
                    pre.spec_buffer_bytes(trans_id),
                    offset as int,
                    value,
                )
                &&& post.buffer_at(trans_id).handle
                    == pre.spec_buffer_handle(trans_id, handle)
                &&& forall|t2: TransferId| t2 != trans_id
                    ==> post.has_buffer(t2) == pre.has_buffer(t2)
                        && (pre.has_buffer(t2)
                            ==> post.buffer_at(t2) == pre.buffer_at(t2))
            })
    &&& (offset as int + value.len() <= MAX_ATTR_LEN as int && !is_prep ==> {
                let spliced = spec_spliced(
                    pre.spec_buffer_bytes(trans_id),
                    offset as int,
                    value,
                );
                &&& r.error == pre.spec_apply_error(handle, spliced)
                &&& !post.has_buffer(trans_id)
                &&& forall|t2: TransferId| t2 != trans_id
                    ==> post.has_buffer(t2) == pre.has_buffer(t2)
                        && (pre.has_buffer(t2)
                            ==> post.buffer_at(t2) == pre.buffer_at(t2))
                &&& (r.error is None ==> {
                    &&& post.registry@.len() == pre.registry@.len()
                    &&& forall|k: int| 0 <= k < pre.registry@.len()
                        && k != pre.attr_index(handle)
                        ==> #[trigger] post.registry@[k] == pre.registry@[k]
                    &&& post.attr_at(handle).handle == handle
                    &&& post.attr_at(handle).codec == pre.attr_at(handle).codec
                    &&& post.attr_at(handle).value@ == spliced
                    &&& (post.attr_at(handle).pending matches Some(u)
                        && u.previous@ == pre.attr_at(handle).value@
                        && u.current@ == spliced)
                })
                &&& (r.error is Some ==> post.registry == pre.registry)
            })
}

/// What executing or canceling a prepared write must look like.
pub open spec fn spec_exec_write_outcome(
    pre: GattServer,
    post: GattServer,
    interface: GattInterface,
    conn_id: ConnectionId,
    trans_id: TransferId,
    canceled: bool,
    r: DispatchOutcome,
) -> bool {
    &&& (post.wf())
    &&& (post.apps == pre.apps)
    &&& (post.services == pre.services)
    &&& (post.characteristics == pre.characteristics)
    &&& (post.descriptors == pre.descriptors)
    &&& (post.connections == pre.connections)
    &&& (post.router == pre.router)
    &&& (r.actions@.len() == 1)
    &&& (!pre.has_buffer(trans_id) ==> {
                &&& post == pre
                &&& r.error == Some(Error::UnknownTransfer(trans_id))
                &&& (r.actions@[0] matches Action::SendResponse {
                    interface: i2, conn_id: c2, trans_id: t2, attr_handle: h2,
                    status, response,
                } && i2 == interface && c2 == conn_id && t2 == trans_id && h2 == 0
                    && status == GattStatus::Failure && response is None)
            })
    &&& (pre.has_buffer(trans_id) ==> {
                let b = pre.buffer_at(trans_id);
                &&& !post.has_buffer(trans_id)
                &&& forall|t2: TransferId| t2 != trans_id
                    ==> post.has_buffer(t2) == pre.has_buffer(t2)
                        && (pre.has_buffer(t2)
                            ==> post.buffer_at(t2) == pre.buffer_at(t2))
                &&& (canceled ==> r.error is None && post.registry == pre.registry)
                &&& (!canceled ==> {
                    &&& r.error == pre.spec_apply_error(b.handle, b.value@)
                    &&& (r.error is Some ==> post.registry == pre.registry)
                    &&& (r.error is None ==> {
                        &&& post.registry@.len() == pre.registry@.len()
                        &&& forall|k: int| 0 <= k < pre.registry@.len()
                            && k != pre.attr_index(b.handle)
                            ==> #[trigger] post.registry@[k] == pre.registry@[k]
                        &&& post.attr_at(b.handle).handle == b.handle
                        &&& post.attr_at(b.handle).codec
                            == pre.attr_at(b.handle).codec
                        &&& post.attr_at(b.handle).value@ == b.value@
                        &&& (post.attr_at(b.handle).pending matches Some(u)
                            && u.previous@ == pre.attr_at(b.handle).value@
                            && u.current@ == b.value@)
                    })
                })
                &&& (r.actions@[0] matches Action::SendResponse {
                    interface: i2, conn_id: c2, trans_id: t2, attr_handle: h2,
                    status, response,
                } && i2 == interface && c2 == conn_id && t2 == trans_id && h2 == b.handle
                    && status == (if r.error is None {
                        GattStatus::Success
                    } else {
                        GattStatus::Failure
                    }) && response is None)
            })
}

/// What opening a connection must look like.
pub open spec fn spec_peer_connected_outcome(
    pre: GattServer,
    post: GattServer,
    interface: GattInterface,
    conn_id: ConnectionId,
    link_role: u8,
    addr: crate::types::BdAddr,
    conn_params: crate::types::GattConnParams,
    r: DispatchOutcome,
) -> bool {
    &&& (post.wf())
    &&& (post.apps == pre.apps)
    &&& (post.services == pre.services)
    &&& (post.characteristics == pre.characteristics)
    &&& (post.descriptors == pre.descriptors)
    &&& (post.registry == pre.registry)
    &&& (post.write_buffers == pre.write_buffers)
    &&& (post.router == pre.router)
    &&& (!pre.has_app(interface) ==> post == pre
                && r.error == Some(Error::UnknownInterface(interface))
                && r.actions@.len() == 0)
    &&& (pre.has_app(interface) && pre.conn_id_elsewhere(interface, conn_id)
                ==> post == pre
                    && r.error == Some(Error::DuplicateConnection(conn_id))
                    && r.actions@.len() == 0)
    &&& (pre.has_app(interface) && !pre.conn_id_elsewhere(interface, conn_id)
                ==> {
                let c = (ConnectionInner {
                    interface,
                    id: conn_id,
                    link_role,
                    mtu: None,
                    address: addr,
                    conn_params,
                });
                &&& r.error is None
                &&& r.actions@.len() == 1
                &&& r.actions@[0] == Action::Broadcast(ConnectionStatus::Connected(c))
                &&& post.has_conn(interface, conn_id)
                &&& post.conn_at(interface, conn_id) == c
                &&& (pre.has_conn(interface, conn_id)
                    ==> post.connections@ == pre.connections@.update(
                        pre.conn_index(interface, conn_id), c))
                &&& (!pre.has_conn(interface, conn_id)
                    ==> post.connections@ == pre.connections@.push(c))
            })
}

/// What closing a connection must look like.
pub open spec fn spec_peer_disconnected_outcome(
    pre: GattServer,
    post: GattServer,
    interface: GattInterface,
    conn_id: ConnectionId,
    r: DispatchOutcome,
) -> bool {
    &&& (post.wf())
    &&& (post.apps == pre.apps)
    &&& (post.services == pre.services)
    &&& (post.characteristics == pre.characteristics)
    &&& (post.descriptors == pre.descriptors)
    &&& (post.registry == pre.registry)
    &&& (post.write_buffers == pre.write_buffers)
    &&& (post.router == pre.router)
    &&& (!pre.has_app(interface) ==> post == pre
                && r.error == Some(Error::UnknownInterface(interface))
                && r.actions@.len() == 0)
    &&& (pre.has_app(interface) && !pre.has_conn(interface, conn_id)
                ==> post == pre
                    && r.error == Some(Error::UnknownConnection(conn_id))
                    && r.actions@.len() == 0)
    &&& (pre.has_app(interface) && pre.has_conn(interface, conn_id) ==> {
                &&& r.error is None
                &&& post.connections@ == pre.connections@.remove(
                    pre.conn_index(interface, conn_id))
                &&& !post.has_conn(interface, conn_id)
                &&& r.actions@.len() == 1
                &&& r.actions@[0] == Action::Broadcast(ConnectionStatus::Disconnected(
                    pre.conn_at(interface, conn_id)))
            })
}

/// The payload bytes a read carries in one response: `mtu - 1` (one byte of
/// ATT opcode overhead).
pub open spec fn spec_effective_read(mtu: u16) -> int {
    if mtu == 0 {
        0
    } else {
        mtu - 1
    }
}

/// Where the read window ends: at most `mtu - 1` bytes past the offset,
/// never past the value, never past the largest attribute the host stack
/// accepts.
pub open spec fn spec_read_end(len: int, offset: u16, mtu: u16) -> int {
    let cap = if len <= MAX_ATTR_LEN as int {
        len
    } else {
        MAX_ATTR_LEN as int
    };
    let want = offset + spec_effective_read(mtu);
    if want <= cap {
        want
    } else {
        cap
    }
}

/// Where the read window starts: at the offset, or empty when the offset
/// lies at or past the end (the host stack tolerates such reads).
pub open spec fn spec_read_start(len: int, offset: u16, mtu: u16) -> int {
    let end = spec_read_end(len, offset, mtu);
    if offset <= end {
        offset as int
    } else {
        end
    }
}

/// The window of the value that a read response carries.
pub open spec fn spec_read_window(bytes: Seq<u8>, offset: u16, mtu: u16) -> Seq<u8> {
    bytes.subrange(
        spec_read_start(bytes.len() as int, offset, mtu),
        spec_read_end(bytes.len() as int, offset, mtu),
    )
}

/// Copy the read window out of a value: starting at `offset`, at most
/// `mtu - 1` bytes, never beyond the value or the host stack's largest
/// attribute.  A read at or past the end of the value yields no bytes.
pub fn read_slice(bytes: &Vec<u8>, offset: u16, mtu: u16) -> (r: Vec<u8>)
    ensures
        r@ == spec_read_window(bytes@, offset, mtu),
        offset >= bytes@.len() ==> r@.len() == 0,
{
    let len = bytes.len();
    let eff: usize = if mtu == 0 {
        0
    } else {
        (mtu - 1) as usize
    };
    let cap: usize = if len <= MAX_ATTR_LEN {
        len
    } else {
        MAX_ATTR_LEN
    };
    let want: usize = offset as usize + eff;
    let end: usize = if want <= cap {
        want
    } else {
        cap
    };
    let start: usize = if offset as usize <= end {
        offset as usize
    } else {
        end
    };
    let mut r: Vec<u8> = Vec::new();
    let mut k: usize = start;
    while k < end
        invariant
            start <= k,
            k <= end || k == start,
            end <= bytes@.len(),
            r@ == bytes@.subrange(start as int, k as int),
        decreases end - k,
    {
        r.push(bytes[k]);
        proof {
            assert(r@ =~= bytes@.subrange(start as int, k as int + 1));
        }
        k = k + 1;
    }
    proof {
        if start >= end {
            assert(r@ =~= bytes@.subrange(
                spec_read_start(bytes@.len() as int, offset, mtu),
                spec_read_end(bytes@.len() as int, offset, mtu),
            ));
        }
    }
    r
}


impl GattServer {
    /// The negotiated MTU of a connection (meaningful when one was
    /// negotiated).
    pub open spec fn spec_conn_mtu(self, interface: GattInterface, id: ConnectionId) -> u16 {
        self.conn_at(interface, id).mtu.unwrap()
    }

    /// Why a read fails, if it does: the attribute must be registered, the
    /// application known, the connection open, and the MTU negotiated.
    pub open spec fn spec_read_error(
        self,
        interface: GattInterface,
        conn_id: ConnectionId,
        handle: Handle,
    ) -> Option<Error> {
        if !self.registry_has(handle) {
            Some(Error::UnknownHandle(handle))
        } else if !self.has_app(interface) {
            Some(Error::UnknownInterface(interface))
        } else if !self.has_conn(interface, conn_id) {
            Some(Error::UnknownConnection(conn_id))
        } else if self.conn_at(interface, conn_id).mtu is None {
            Some(Error::MtuUnknown(conn_id))
        } else {
            None
        }
    }

    /// Serve a read request.  Without `need_rsp` nothing is sent.  On
    /// success the response carries the window of the attribute's bytes
    /// selected by the offset and the connection's MTU; on any failure an
    /// error response is sent and the error is reported for logging.
    pub fn handle_read(
        &self,
        interface: GattInterface,
        conn_id: ConnectionId,
        trans_id: TransferId,
        handle: Handle,
        offset: u16,
        need_rsp: bool,
    ) -> (r: DispatchOutcome)
        requires
            self.wf(),
        ensures
            spec_read_outcome(*self, interface, conn_id, trans_id, handle, offset,
                need_rsp, r),
    {
        if !need_rsp {
            return DispatchOutcome { actions: Vec::new(), error: None };
        }
        let attr_i = match self.find_attr(handle) {
            Some(i) => i,
            None => {
                return self.read_failure(interface, conn_id, trans_id, handle,
                    Error::UnknownHandle(handle));
            },
        };
        proof {
            self.lemma_attr_at(handle, attr_i as int);
        }
        if self.find_app(interface).is_none() {
            return self.read_failure(interface, conn_id, trans_id, handle,
                Error::UnknownInterface(interface));
        }
        let conn_i = match self.find_conn(interface, conn_id) {
            Some(i) => i,
            None => {
                return self.read_failure(interface, conn_id, trans_id, handle,
                    Error::UnknownConnection(conn_id));
            },
        };
        proof {
            self.lemma_conn_at(interface, conn_id, conn_i as int);
        }
        let mtu = match self.connections[conn_i].mtu {
            Some(m) => m,
            None => {
                return self.read_failure(interface, conn_id, trans_id, handle,
                    Error::MtuUnknown(conn_id));
            },
        };
        let window = read_slice(&self.registry[attr_i].value, offset, mtu);
        let mut actions: Vec<Action> = Vec::new();
        actions.push(Action::SendResponse {
            interface,
            conn_id,
            trans_id,
            attr_handle: handle,
            status: GattStatus::Success,
            response: Some(AttResponse {
                attr_handle: handle,
                auth_req: 0,
                offset,
                value: window,
            }),
        });
        DispatchOutcome { actions, error: None }
    }

    /// An error response for a failed read, next to the error for the log.
    fn read_failure(
        &self,
        interface: GattInterface,
        conn_id: ConnectionId,
        trans_id: TransferId,
        handle: Handle,
        e: Error,
    ) -> (r: DispatchOutcome)
        ensures
            r.error == Some(e),
            r.actions@.len() == 1,
            (r.actions@[0] matches Action::SendResponse {
                interface: i2, conn_id: c2, trans_id: t2, attr_handle: h2,
                status, response,
            } && i2 == interface && c2 == conn_id && t2 == trans_id && h2 == handle
                && status == GattStatus::Failure && response is None),
    {
        let mut actions: Vec<Action> = Vec::new();
        actions.push(Action::SendResponse {
            interface,
            conn_id,
            trans_id,
            attr_handle: handle,
            status: GattStatus::Failure,
            response: None,
        });
        DispatchOutcome { actions, error: Some(e) }
    }

    /// Record the MTU a connection negotiated.  MTU updates happen before
    /// the next read or write of the same connection, because dispatch is
    /// serial.
    pub fn handle_mtu(
        &mut self,
        interface: GattInterface,
        conn_id: ConnectionId,
        mtu: u16,
    ) -> (r: DispatchOutcome)
        requires
            old(self).wf(),
        ensures
            spec_mtu_outcome(*old(self), *final(self), interface, conn_id, mtu, r),
    {
        if self.find_app(interface).is_none() {
            return DispatchOutcome {
                actions: Vec::new(),
                error: Some(Error::UnknownInterface(interface)),
            };
        }
        let conn_i = match self.find_conn(interface, conn_id) {
            Some(i) => i,
            None => {
                return DispatchOutcome {
                    actions: Vec::new(),
                    error: Some(Error::UnknownConnection(conn_id)),
                };
            },
        };
        proof {
            self.lemma_conn_at(interface, conn_id, conn_i as int);
        }
        let mut c = self.connections[conn_i];
        c.mtu = Some(mtu);
        self.connections.set(conn_i, c);
        proof {
            let pre = *old(self);
            assert(final(self).connections_unique()) by {
                assert forall|i: int, j: int|
                    0 <= i < j < self.connections@.len() implies #[trigger] self
                    .connections@[i].id != #[trigger] self.connections@[j].id by {
                    assert(pre.connections@[i].id != pre.connections@[j].id);
                }
            }
            assert(final(self).connections_owned()) by {
                assert forall|i: int| 0 <= i < self.connections@.len() implies self.has_app(
                    #[trigger] self.connections@[i].interface,
                ) by {
                    assert(self.connections@[i].interface == pre.connections@[i].interface);
                    assert(pre.has_app(pre.connections@[i].interface));
                    let w = choose|w: int| 0 <= w < pre.apps@.len()
                        && #[trigger] pre.apps@[w].interface == pre.connections@[i].interface;
                    assert(self.apps@[w].interface == self.connections@[i].interface);
                }
            }
        }
        DispatchOutcome { actions: Vec::new(), error: None }
    }
}


/// The buffer bytes after splicing a chunk at `offset`: the buffer grows to
/// at least `offset + |chunk|` (zero-filled where nothing was written) and
/// the chunk overwrites the window starting at `offset`.
pub open spec fn spec_spliced(buf: Seq<u8>, offset: int, chunk: Seq<u8>) -> Seq<u8> {
    let newlen = if buf.len() >= offset + chunk.len() {
        buf.len() as int
    } else {
        offset + chunk.len()
    };
    Seq::new(
        newlen as nat,
        |i: int|
            if offset <= i < offset + chunk.len() {
                chunk[i - offset]
            } else if i < buf.len() {
                buf[i]
            } else {
                0u8
            },
    )
}

/// Splice a chunk into a prepare buffer at `offset`, growing it with zeros
/// as needed.
fn splice_into(buf: &mut Vec<u8>, offset: u16, chunk: &Vec<u8>)
    requires
        offset as int + chunk@.len() <= MAX_ATTR_LEN as int,
    ensures
        final(buf)@ == spec_spliced(old(buf)@, offset as int, chunk@),
{
    let target: usize = offset as usize + chunk.len();
    let ghost pre = buf@;
    while buf.len() < target
        invariant
            offset as int + chunk@.len() <= MAX_ATTR_LEN as int,
            target == offset as int + chunk@.len(),
            pre.len() <= buf@.len(),
            buf@.len() <= target || buf@.len() == pre.len(),
            forall|i: int| 0 <= i < pre.len() ==> buf@[i] == pre[i],
            forall|i: int| pre.len() <= i < buf@.len() ==> buf@[i] == 0u8,
        decreases target - buf@.len(),
    {
        buf.push(0);
    }
    let ghost grown = buf@;
    let n = chunk.len();
    let mut k: usize = 0;
    while k < n
        invariant
            n == chunk@.len(),
            offset as int + n <= MAX_ATTR_LEN as int,
            k <= n,
            offset as int + n <= buf@.len(),
            buf@.len() == grown.len(),
            forall|i: int| 0 <= i < buf@.len() && !(offset as int <= i < offset as int + k)
                ==> buf@[i] == grown[i],
            forall|i: int| offset as int <= i < offset as int + k
                ==> buf@[i] == chunk@[i - offset as int],
        decreases n - k,
    {
        buf.set(offset as usize + k, chunk[k]);
        k = k + 1;
    }
    proof {
        let spliced = spec_spliced(pre, offset as int, chunk@);
        assert(buf@.len() == spliced.len());
        assert forall|i: int| 0 <= i < buf@.len() implies buf@[i] == spliced[i] by {
            if offset as int <= i < offset as int + chunk@.len() {
            } else if i < pre.len() {
                assert(buf@[i] == grown[i]);
            } else {
                assert(buf@[i] == grown[i]);
            }
        }
        assert(buf@ =~= spliced);
    }
}

impl GattServer {
    /// Registering and writing attributes never changes which handles the
    /// registry holds, only their values; everything registered stays
    /// registered.
    proof fn lemma_preserve_wf(pre: GattServer, post: GattServer)
        requires
            pre.wf(),
            post.apps == pre.apps,
            post.services_unique(),
            post.characteristics == pre.characteristics,
            post.descriptors == pre.descriptors,
            post.connections == pre.connections,
            post.router.wf(),
            post.registry@.len() == pre.registry@.len(),
            forall|k: int| 0 <= k < post.registry@.len()
                ==> #[trigger] post.registry@[k].handle == pre.registry@[k].handle,
            post.buffers_unique(),
        ensures
            post.wf(),
    {
        assert(post.registry_unique()) by {
            assert forall|i: int, j: int| 0 <= i < j < post.registry@.len()
                implies #[trigger] post.registry@[i].handle
                != #[trigger] post.registry@[j].handle by {
                assert(pre.registry@[i].handle != pre.registry@[j].handle);
            }
        }
        assert forall|h: Handle| pre.registry_has(h) implies post.registry_has(h) by {
            let w = choose|w: int| 0 <= w < pre.registry@.len()
                && #[trigger] pre.registry@[w].handle == h;
            assert(post.registry@[w].handle == h);
        }
        assert(post.apps_unique()) by {
            assert forall|a: int, b: int| 0 <= a < b < post.apps@.len()
                implies #[trigger] post.apps@[a].interface
                != #[trigger] post.apps@[b].interface by {
                assert(pre.apps@[a].interface != pre.apps@[b].interface);
            }
        }
        assert(post.connections_unique()) by {
            assert forall|a: int, b: int| 0 <= a < b < post.connections@.len()
                implies #[trigger] post.connections@[a].id
                != #[trigger] post.connections@[b].id by {
                assert(pre.connections@[a].id != pre.connections@[b].id);
            }
        }
        assert(post.connections_owned()) by {
            assert forall|k: int| 0 <= k < post.connections@.len() implies post.has_app(
                #[trigger] post.connections@[k].interface,
            ) by {
                assert(pre.has_app(pre.connections@[k].interface));
                let w = choose|w: int| 0 <= w < pre.apps@.len()
                    && #[trigger] pre.apps@[w].interface == pre.connections@[k].interface;
                assert(post.apps@[w].interface == post.connections@[k].interface);
            }
        }
        assert(post.notify_has_cccd()) by {
            assert forall|i: int| 0 <= i < post.characteristics@.len() implies ((
            #[trigger] post.characteristics@[i].config.enable_notify)
                ==> post.char_has_descriptor(
                post.characteristics@[i].handle,
                BtUuid::Uuid16(CCCD_UUID),
            )) by {
                if post.characteristics@[i].config.enable_notify {
                    assert(pre.char_has_descriptor(pre.characteristics@[i].handle,
                        BtUuid::Uuid16(CCCD_UUID)));
                    let w = choose|w: int| 0 <= w < pre.descriptors@.len()
                        && #[trigger] pre.descriptors@[w].char_handle
                            == pre.characteristics@[i].handle
                        && pre.descriptors@[w].uuid == BtUuid::Uuid16(CCCD_UUID);
                    assert(post.descriptors@[w].char_handle
                        == post.characteristics@[i].handle);
                    assert(post.descriptors@[w].uuid == BtUuid::Uuid16(CCCD_UUID));
                }
            }
        }
        assert(post.descriptors_unique()) by {
            assert forall|a: int, b: int| 0 <= a < b < post.descriptors@.len()
                implies !(#[trigger] post.descriptors@[a].char_handle
                == #[trigger] post.descriptors@[b].char_handle
                && post.descriptors@[a].uuid == post.descriptors@[b].uuid) by {
                assert(!(pre.descriptors@[a].char_handle == pre.descriptors@[b].char_handle
                    && pre.descriptors@[a].uuid == pre.descriptors@[b].uuid));
            }
        }
        assert(post.characteristics_registered()) by {
            assert forall|i: int| 0 <= i < post.characteristics@.len() implies post.registry_has(
                #[trigger] post.characteristics@[i].handle,
            ) by {
                assert(pre.registry_has(pre.characteristics@[i].handle));
            }
        }
        assert(post.descriptors_attached()) by {
            assert forall|i: int| 0 <= i < post.descriptors@.len() implies post.registry_has(
                #[trigger] post.descriptors@[i].char_handle,
            ) by {
                assert(pre.registry_has(pre.descriptors@[i].char_handle));
            }
        }
        assert(post.descriptors_registered()) by {
            assert forall|i: int| 0 <= i < post.descriptors@.len() implies ((
            #[trigger] post.descriptors@[i].handle) matches Some(h)
                ==> post.registry_has(h)) by {
                if post.descriptors@[i].handle is Some {
                    assert(pre.registry_has(pre.descriptors@[i].handle.unwrap()));
                }
            }
        }
    }

    /// Apply bytes to the registry entry at `idx` through its codec.  When
    /// the codec accepts them they become the value and an update
    /// notification is published (dropping an unconsumed older one);
    /// otherwise nothing changes.
    fn apply_to_attr(&mut self, idx: usize, bytes: Vec<u8>) -> (r: Result<(), Error>)
        requires
            old(self).wf(),
            idx < old(self).registry@.len(),
        ensures
            final(self).wf(),
            final(self).apps == old(self).apps,
            final(self).services == old(self).services,
            final(self).characteristics == old(self).characteristics,
            final(self).descriptors == old(self).descriptors,
            final(self).connections == old(self).connections,
            final(self).write_buffers == old(self).write_buffers,
            final(self).router == old(self).router,
            codec_accepts(old(self).registry@[idx as int].codec, bytes@) ==> {
                &&& r is Ok
                &&& final(self).registry@.len() == old(self).registry@.len()
                &&& forall|k: int| 0 <= k < old(self).registry@.len() && k != idx
                    ==> #[trigger] final(self).registry@[k] == old(self).registry@[k]
                &&& final(self).registry@[idx as int].handle
                    == old(self).registry@[idx as int].handle
                &&& final(self).registry@[idx as int].codec
                    == old(self).registry@[idx as int].codec
                &&& final(self).registry@[idx as int].value@ == bytes@
                &&& (final(self).registry@[idx as int].pending matches Some(u)
                    && u.previous@ == old(self).registry@[idx as int].value@
                    && u.current@ == bytes@)
            },
            !codec_accepts(old(self).registry@[idx as int].codec, bytes@) ==> {
                &&& (r matches Err(e) && e == Error::CodecError)
                &&& *final(self) == *old(self)
            },
    {
        if !codec_check(self.registry[idx].codec, bytes.as_slice()) {
            return Err(Error::CodecError);
        }
        let current_copy = crate::codec::copy_bytes(&bytes);
        let mut taken = AttrEntry {
            handle: 0,
            codec: CodecKind::Bytes,
            value: Vec::new(),
            pending: None,
        };
        self.registry.set_and_swap(idx, &mut taken);
        let updated = AttrEntry {
            handle: taken.handle,
            codec: taken.codec,
            value: bytes,
            pending: Some(ByteUpdate { previous: taken.value, current: current_copy }),
        };
        self.registry.set(idx, updated);
        proof {
            Self::lemma_preserve_wf(*old(self), *self);
        }
        Ok(())
    }

    /// Why applying spliced bytes to an attribute fails, if it does.
    pub open spec fn spec_apply_error(self, handle: Handle, bytes: Seq<u8>) -> Option<Error> {
        if !self.registry_has(handle) {
            Some(Error::UnknownHandle(handle))
        } else if !codec_accepts(self.attr_at(handle).codec, bytes) {
            Some(Error::CodecError)
        } else {
            None
        }
    }

    /// The prepare-buffer bytes a write for this transfer starts from: the
    /// buffer assembled so far, or nothing for a fresh transfer.
    pub open spec fn spec_buffer_bytes(self, t: TransferId) -> Seq<u8> {
        if self.has_buffer(t) {
            self.buffer_at(t).value@
        } else {
            Seq::empty()
        }
    }

    /// The attribute handle recorded for this transfer: the one the buffer
    /// was created with, or the event's for a fresh transfer.
    pub open spec fn spec_buffer_handle(self, t: TransferId, handle: Handle) -> Handle {
        if self.has_buffer(t) {
            self.buffer_at(t).handle
        } else {
            handle
        }
    }

    /// Serve a write request, with prepare-write semantics.  The chunk is
    /// spliced into the transfer's buffer (created on first use).  An
    /// immediate write (`is_prep == false`) applies the buffer to the
    /// attribute through its codec and frees the buffer.  A response echoing
    /// the chunk is sent exactly when the peer asked for one; its status
    /// reports whether everything succeeded.  A chunk that would grow the
    /// buffer past the largest attribute the host stack accepts is refused
    /// whole.
    pub fn handle_write(
        &mut self,
        interface: GattInterface,
        conn_id: ConnectionId,
        trans_id: TransferId,
        handle: Handle,
        offset: u16,
        need_rsp: bool,
        is_prep: bool,
        value: &Vec<u8>,
    ) -> (r: DispatchOutcome)
        requires
            old(self).wf(),
        ensures
            spec_write_outcome(*old(self), *final(self), interface, conn_id, trans_id, handle, offset,
                need_rsp, is_prep, value@, r),
    {
        if offset as usize > MAX_ATTR_LEN || value.len() > MAX_ATTR_LEN - offset as usize {
            let e = Error::CodecError;
            return DispatchOutcome {
                actions: self.write_response_actions(interface, conn_id, trans_id, handle,
                    offset, need_rsp, false, value),
                error: Some(e),
            };
        }
        let ghost pre = *self;
        let buf_i = match self.find_buffer(trans_id) {
            Some(i) => {
                proof {
                    self.lemma_buffer_at(trans_id, i as int);
                }
                i
            },
            None => {
                let i = self.write_buffers.len();
                self.write_buffers.push(PrepareWriteBuffer {
                    trans_id,
                    handle,
                    value: Vec::new(),
                });
                proof {
                    assert(self.buffers_unique()) by {
                        assert forall|a: int, b: int|
                            0 <= a < b < self.write_buffers@.len() implies #[trigger] self
                            .write_buffers@[a].trans_id
                            != #[trigger] self.write_buffers@[b].trans_id by {
                            if b < i {
                                assert(pre.write_buffers@[a].trans_id
                                    != pre.write_buffers@[b].trans_id);
                            } else {
                                assert(!pre.has_buffer(trans_id));
                                assert(pre.write_buffers@[a].trans_id != trans_id);
                            }
                        }
                    }
                    self.lemma_buffer_at(trans_id, i as int);
                }
                i
            },
        };
        let ghost created = *self;
        proof {
            if pre.has_buffer(trans_id) {
                assert(created == pre);
            } else {
                Self::lemma_buffers_push(pre, created, trans_id);
            }
        }
        let mut taken = PrepareWriteBuffer {
            trans_id,
            handle: self.write_buffers[buf_i].handle,
            value: Vec::new(),
        };
        self.write_buffers.set_and_swap(buf_i, &mut taken);
        let ghost swapped = *self;
        proof {
            assert(taken == created.write_buffers@[buf_i as int]);
            assert(self.buffers_unique()) by {
                assert forall|a: int, b: int|
                    0 <= a < b < self.write_buffers@.len() implies #[trigger] self
                    .write_buffers@[a].trans_id
                    != #[trigger] self.write_buffers@[b].trans_id by {
                    assert(created.write_buffers@[a].trans_id
                        != created.write_buffers@[b].trans_id);
                    assert(created.write_buffers@[buf_i as int].trans_id == trans_id);
                }
            }
            Self::lemma_buffers_set(created, swapped, buf_i as int, trans_id);
        }
        splice_into(&mut taken.value, offset, value);
        proof {
            if pre.has_buffer(trans_id) {
                assert(pre.buffer_at(trans_id) == created.write_buffers@[buf_i as int]);
            }
            assert(taken.value@ == spec_spliced(
                pre.spec_buffer_bytes(trans_id),
                offset as int,
                value@,
            ));
            assert(taken.handle == pre.spec_buffer_handle(trans_id, handle));
        }
        if is_prep {
            self.write_buffers.set(buf_i, taken);
            proof {
                assert(self.buffers_unique()) by {
                    assert forall|a: int, b: int|
                        0 <= a < b < self.write_buffers@.len() implies #[trigger] self
                        .write_buffers@[a].trans_id
                        != #[trigger] self.write_buffers@[b].trans_id by {
                        assert(created.write_buffers@[a].trans_id
                            != created.write_buffers@[b].trans_id);
                        assert(created.write_buffers@[buf_i as int].trans_id == trans_id);
                    }
                }
                self.lemma_buffer_at(trans_id, buf_i as int);
                Self::lemma_preserve_wf(pre, *self);
                Self::lemma_buffers_set(created, *self, buf_i as int, trans_id);
                assert forall|t2: TransferId| t2 != trans_id implies self.has_buffer(t2)
                    == pre.has_buffer(t2) && (pre.has_buffer(t2) ==> self.buffer_at(t2)
                    == pre.buffer_at(t2)) by {}
            }
            return DispatchOutcome {
                actions: self.write_response_actions(interface, conn_id, trans_id, handle,
                    offset, need_rsp, true, value),
                error: None,
            };
        }
        let _ = self.write_buffers.remove(buf_i);
        let ghost shrunk = *self;
        proof {
            Self::lemma_buffers_remove(swapped, shrunk, buf_i as int, trans_id);
            assert(shrunk.wf()) by {
                Self::lemma_preserve_wf(pre, shrunk);
            }
        }
        let result: Result<(), Error> = match self.find_attr(handle) {
            None => Err(Error::UnknownHandle(handle)),
            Some(attr_i) => {
                proof {
                    self.lemma_attr_at(handle, attr_i as int);
                    pre.lemma_attr_at(handle, attr_i as int);
                }
                self.apply_to_attr(attr_i, taken.value)
            },
        };
        proof {
            Self::lemma_same_registry(pre, shrunk);
            if !shrunk.registry_has(handle) {
                assert(*self == shrunk);
                assert(self.wf()) by {
                    Self::lemma_preserve_wf(pre, *self);
                }
            }
            assert(self.write_buffers == shrunk.write_buffers);
            assert forall|t2: TransferId| t2 != trans_id implies self.has_buffer(t2)
                == pre.has_buffer(t2) && (pre.has_buffer(t2) ==> self.buffer_at(t2)
                == pre.buffer_at(t2)) by {
                assert(shrunk.has_buffer(t2) == pre.has_buffer(t2));
                Self::lemma_same_buffers(shrunk, *self);
            }
            assert(!self.has_buffer(trans_id)) by {
                Self::lemma_same_buffers(shrunk, *self);
            }
            if pre.registry_has(handle) {
                let w = pre.attr_index(handle);
                assert(self.registry@.len() == pre.registry@.len());
                assert(self.registry@[w].handle == handle);
                self.lemma_attr_at(handle, w);
            }
        }
        let error = match result {
            Ok(()) => None,
            Err(e) => Some(e),
        };
        DispatchOutcome {
            actions: self.write_response_actions(interface, conn_id, trans_id, handle, offset,
                need_rsp, error.is_none(), value),
            error,
        }
    }

    /// Two states with the same registry resolve every handle alike.
    proof fn lemma_same_registry(pre: GattServer, post: GattServer)
        requires
            pre.registry_unique(),
            post.registry == pre.registry,
        ensures
            forall|h: Handle| #[trigger] post.registry_has(h) == pre.registry_has(h),
            forall|h: Handle| #[trigger] pre.registry_has(h)
                ==> post.attr_index(h) == pre.attr_index(h)
                    && post.attr_at(h) == pre.attr_at(h),
    {
        assert forall|h: Handle| #[trigger] post.registry_has(h) == pre.registry_has(h) by {
            if pre.registry_has(h) {
                let w = pre.attr_index(h);
                pre.lemma_attr_at(h, w);
                assert(post.registry@[w].handle == h);
            }
            if post.registry_has(h) {
                let w = choose|w: int| 0 <= w < post.registry@.len()
                    && #[trigger] post.registry@[w].handle == h;
                assert(pre.registry@[w].handle == h);
            }
        }
        assert forall|h: Handle| #[trigger] pre.registry_has(h) implies post.attr_index(h)
            == pre.attr_index(h) && post.attr_at(h) == pre.attr_at(h) by {
            let w = pre.attr_index(h);
            pre.lemma_attr_at(h, w);
            assert(post.registry@[w].handle == h);
            post.lemma_attr_at(h, w);
        }
    }

    /// Two states with the same buffers resolve every transfer alike.
    proof fn lemma_same_buffers(pre: GattServer, post: GattServer)
        requires
            pre.buffers_unique(),
            post.write_buffers == pre.write_buffers,
        ensures
            forall|t: TransferId| #[trigger] post.has_buffer(t) == pre.has_buffer(t),
            forall|t: TransferId| #[trigger] pre.has_buffer(t)
                ==> post.buffer_at(t) == pre.buffer_at(t),
    {
        assert forall|t: TransferId| #[trigger] post.has_buffer(t) == pre.has_buffer(t) by {
            if pre.has_buffer(t) {
                let w = pre.buffer_index(t);
                pre.lemma_buffer_at(t, w);
                assert(post.write_buffers@[w].trans_id == t);
            }
            if post.has_buffer(t) {
                let w = choose|w: int| 0 <= w < post.write_buffers@.len()
                    && #[trigger] post.write_buffers@[w].trans_id == t;
                assert(pre.write_buffers@[w].trans_id == t);
            }
        }
        assert forall|t: TransferId| #[trigger] pre.has_buffer(t) implies post.buffer_at(t)
            == pre.buffer_at(t) by {
            let w = pre.buffer_index(t);
            pre.lemma_buffer_at(t, w);
            assert(post.write_buffers@[w].trans_id == t);
            post.lemma_buffer_at(t, w);
        }
    }

    /// Appending a buffer for one transfer leaves every other transfer's
    /// buffer untouched.
    proof fn lemma_buffers_push(pre: GattServer, post: GattServer, t: TransferId)
        requires
            pre.buffers_unique(),
            post.buffers_unique(),
            post.write_buffers@.len() == pre.write_buffers@.len() + 1,
            post.write_buffers@[post.write_buffers@.len() - 1].trans_id == t,
            forall|k: int| 0 <= k < pre.write_buffers@.len()
                ==> #[trigger] post.write_buffers@[k] == pre.write_buffers@[k],
        ensures
            forall|t2: TransferId| t2 != t ==> post.has_buffer(t2) == pre.has_buffer(t2)
                && (pre.has_buffer(t2) ==> post.buffer_at(t2) == pre.buffer_at(t2)),
    {
        assert forall|t2: TransferId| t2 != t implies post.has_buffer(t2) == pre.has_buffer(t2)
            && (pre.has_buffer(t2) ==> post.buffer_at(t2) == pre.buffer_at(t2)) by {
            if pre.has_buffer(t2) {
                let w = pre.buffer_index(t2);
                assert(pre.write_buffers@[w].trans_id == t2);
                assert(post.write_buffers@[w].trans_id == t2);
                post.lemma_buffer_at(t2, w);
                pre.lemma_buffer_at(t2, w);
            } else {
                if post.has_buffer(t2) {
                    let w = post.buffer_index(t2);
                    assert(post.write_buffers@[w].trans_id == t2);
                    assert(w < pre.write_buffers@.len());
                    assert(pre.write_buffers@[w].trans_id == t2);
                }
            }
        }
    }

    /// Replacing the buffer of one transfer in place leaves every other
    /// transfer's buffer untouched.
    proof fn lemma_buffers_set(pre: GattServer, post: GattServer, i: int, t: TransferId)
        requires
            pre.buffers_unique(),
            post.buffers_unique(),
            0 <= i < pre.write_buffers@.len(),
            post.write_buffers@.len() == pre.write_buffers@.len(),
            pre.write_buffers@[i].trans_id == t,
            post.write_buffers@[i].trans_id == t,
            forall|k: int| 0 <= k < pre.write_buffers@.len() && k != i
                ==> #[trigger] post.write_buffers@[k] == pre.write_buffers@[k],
        ensures
            forall|t2: TransferId| t2 != t ==> post.has_buffer(t2) == pre.has_buffer(t2)
                && (pre.has_buffer(t2) ==> post.buffer_at(t2) == pre.buffer_at(t2)),
    {
        assert forall|t2: TransferId| t2 != t implies post.has_buffer(t2) == pre.has_buffer(t2)
            && (pre.has_buffer(t2) ==> post.buffer_at(t2) == pre.buffer_at(t2)) by {
            if pre.has_buffer(t2) {
                let w = pre.buffer_index(t2);
                assert(pre.write_buffers@[w].trans_id == t2);
                assert(w != i);
                assert(post.write_buffers@[w].trans_id == t2);
                post.lemma_buffer_at(t2, w);
                pre.lemma_buffer_at(t2, w);
            } else {
                if post.has_buffer(t2) {
                    let w = post.buffer_index(t2);
                    assert(post.write_buffers@[w].trans_id == t2);
                    assert(w != i);
                    assert(pre.write_buffers@[w].trans_id == t2);
                }
            }
        }
    }

    /// Removing the buffer of one transfer leaves every other transfer's
    /// buffer untouched, and that transfer with no buffer.
    proof fn lemma_buffers_remove(pre: GattServer, post: GattServer, i: int, t: TransferId)
        requires
            pre.buffers_unique(),
            0 <= i < pre.write_buffers@.len(),
            pre.write_buffers@[i].trans_id == t,
            post.write_buffers@ == pre.write_buffers@.remove(i),
        ensures
            post.buffers_unique(),
            !post.has_buffer(t),
            forall|t2: TransferId| t2 != t ==> post.has_buffer(t2) == pre.has_buffer(t2)
                && (pre.has_buffer(t2) ==> post.buffer_at(t2) == pre.buffer_at(t2)),
    {
        assert(post.buffers_unique()) by {
            assert forall|a: int, b: int| 0 <= a < b < post.write_buffers@.len()
                implies #[trigger] post.write_buffers@[a].trans_id
                != #[trigger] post.write_buffers@[b].trans_id by {
                let a0 = if a < i { a } else { a + 1 };
                let b0 = if b < i { b } else { b + 1 };
                assert(post.write_buffers@[a] == pre.write_buffers@[a0]);
                assert(post.write_buffers@[b] == pre.write_buffers@[b0]);
                assert(pre.write_buffers@[a0].trans_id != pre.write_buffers@[b0].trans_id);
            }
        }
        assert(!post.has_buffer(t)) by {
            if post.has_buffer(t) {
                let w = post.buffer_index(t);
                assert(post.write_buffers@[w].trans_id == t);
                let w0 = if w < i { w } else { w + 1 };
                assert(post.write_buffers@[w] == pre.write_buffers@[w0]);
                assert(w0 != i);
                if w0 < i {
                    assert(pre.write_buffers@[w0].trans_id != pre.write_buffers@[i].trans_id);
                } else {
                    assert(pre.write_buffers@[i].trans_id != pre.write_buffers@[w0].trans_id);
                }
            }
        }
        assert forall|t2: TransferId| t2 != t implies post.has_buffer(t2) == pre.has_buffer(t2)
            && (pre.has_buffer(t2) ==> post.buffer_at(t2) == pre.buffer_at(t2)) by {
            if pre.has_buffer(t2) {
                let w = pre.buffer_index(t2);
                assert(pre.write_buffers@[w].trans_id == t2);
                assert(w != i);
                let w2 = if w < i { w } else { w - 1 };
                assert(post.write_buffers@[w2] == pre.write_buffers@[w]);
                post.lemma_buffer_at(t2, w2);
                pre.lemma_buffer_at(t2, w);
            } else {
                if post.has_buffer(t2) {
                    let w = post.buffer_index(t2);
                    assert(post.write_buffers@[w].trans_id == t2);
                    let w0 = if w < i { w } else { w + 1 };
                    assert(post.write_buffers@[w] == pre.write_buffers@[w0]);
                    assert(pre.has_buffer(t2));
                }
            }
        }
    }

    /// The echo response of a write, when the peer asked for one.
    fn write_response_actions(
        &self,
        interface: GattInterface,
        conn_id: ConnectionId,
        trans_id: TransferId,
        handle: Handle,
        offset: u16,
        need_rsp: bool,
        ok: bool,
        value: &Vec<u8>,
    ) -> (r: Vec<Action>)
        ensures
            !need_rsp ==> r@.len() == 0,
            need_rsp ==> r@.len() == 1
                && (r@[0] matches Action::SendResponse {
                    interface: i2, conn_id: c2, trans_id: t2, attr_handle: h2,
                    status, response,
                } && i2 == interface && c2 == conn_id && t2 == trans_id && h2 == handle
                    && status == (if ok {
                        GattStatus::Success
                    } else {
                        GattStatus::Failure
                    })
                    && (response matches Some(resp)
                        && resp.attr_handle == handle
                        && resp.auth_req == 0
                        && resp.offset == offset
                        && resp.value@ == value@)),
    {
        let mut actions: Vec<Action> = Vec::new();
        if need_rsp {
            actions.push(Action::SendResponse {
                interface,
                conn_id,
                trans_id,
                attr_handle: handle,
                status: if ok {
                    GattStatus::Success
                } else {
                    GattStatus::Failure
                },
                response: Some(AttResponse {
                    attr_handle: handle,
                    auth_req: 0,
                    offset,
                    value: crate::codec::copy_bytes(value),
                }),
            });
        }
        actions
    }
}


impl GattServer {
    /// Whether some other application has a connection with this id.
    pub open spec fn conn_id_elsewhere(self, interface: GattInterface, id: ConnectionId)
        -> bool {
        exists|i: int| 0 <= i < self.connections@.len()
            && #[trigger] self.connections@[i].id == id
            && self.connections@[i].interface != interface
    }

    /// The response of an execute-write: status only, no value payload.
    fn exec_response_actions(
        &self,
        interface: GattInterface,
        conn_id: ConnectionId,
        trans_id: TransferId,
        handle: Handle,
        ok: bool,
    ) -> (r: Vec<Action>)
        ensures
            r@.len() == 1,
            (r@[0] matches Action::SendResponse {
                interface: i2, conn_id: c2, trans_id: t2, attr_handle: h2,
                status, response,
            } && i2 == interface && c2 == conn_id && t2 == trans_id && h2 == handle
                && status == (if ok {
                    GattStatus::Success
                } else {
                    GattStatus::Failure
                }) && response is None),
    {
        let mut actions: Vec<Action> = Vec::new();
        actions.push(Action::SendResponse {
            interface,
            conn_id,
            trans_id,
            attr_handle: handle,
            status: if ok {
                GattStatus::Success
            } else {
                GattStatus::Failure
            },
            response: None,
        });
        actions
    }

    /// Execute or cancel a prepared write.  A cancel discards the buffer; an
    /// execute applies the assembled bytes to the attribute the buffer was
    /// opened for, through its codec.  Either way the buffer is freed.  A
    /// transfer with no buffer is answered with an error response.
    pub fn handle_exec_write(
        &mut self,
        interface: GattInterface,
        conn_id: ConnectionId,
        trans_id: TransferId,
        canceled: bool,
    ) -> (r: DispatchOutcome)
        requires
            old(self).wf(),
        ensures
            spec_exec_write_outcome(*old(self), *final(self), interface, conn_id, trans_id, canceled, r),
    {
        let ghost pre = *self;
        let buf_i = match self.find_buffer(trans_id) {
            Some(i) => i,
            None => {
                return DispatchOutcome {
                    actions: self.exec_response_actions(interface, conn_id, trans_id, 0,
                        false),
                    error: Some(Error::UnknownTransfer(trans_id)),
                };
            },
        };
        proof {
            self.lemma_buffer_at(trans_id, buf_i as int);
        }
        let removed = self.write_buffers.remove(buf_i);
        let ghost shrunk = *self;
        proof {
            Self::lemma_buffers_remove(pre, shrunk, buf_i as int, trans_id);
            assert(shrunk.wf()) by {
                Self::lemma_preserve_wf(pre, shrunk);
            }
        }
        if canceled {
            return DispatchOutcome {
                actions: self.exec_response_actions(interface, conn_id, trans_id,
                    removed.handle, true),
                error: None,
            };
        }
        let result: Result<(), Error> = match self.find_attr(removed.handle) {
            None => Err(Error::UnknownHandle(removed.handle)),
            Some(attr_i) => {
                proof {
                    self.lemma_attr_at(removed.handle, attr_i as int);
                    pre.lemma_attr_at(removed.handle, attr_i as int);
                }
                self.apply_to_attr(attr_i, removed.value)
            },
        };
        proof {
            Self::lemma_same_registry(pre, shrunk);
            if !shrunk.registry_has(removed.handle) {
                assert(*self == shrunk);
                assert(self.wf()) by {
                    Self::lemma_preserve_wf(pre, *self);
                }
            }
            assert(self.write_buffers == shrunk.write_buffers);
            assert forall|t2: TransferId| t2 != trans_id implies self.has_buffer(t2)
                == pre.has_buffer(t2) && (pre.has_buffer(t2) ==> self.buffer_at(t2)
                == pre.buffer_at(t2)) by {
                assert(shrunk.has_buffer(t2) == pre.has_buffer(t2));
                Self::lemma_same_buffers(shrunk, *self);
            }
            assert(!self.has_buffer(trans_id)) by {
                Self::lemma_same_buffers(shrunk, *self);
            }
            if pre.registry_has(removed.handle) {
                let w = pre.attr_index(removed.handle);
                assert(self.registry@.len() == pre.registry@.len());
                assert(self.registry@[w].handle == removed.handle);
                self.lemma_attr_at(removed.handle, w);
            }
        }
        let error = match result {
            Ok(()) => None,
            Err(e) => Some(e),
        };
        DispatchOutcome {
            actions: self.exec_response_actions(interface, conn_id, trans_id, removed.handle,
                error.is_none()),
            error,
        }
    }

    /// Open a connection: record it under the application on this
    /// interface, with no MTU yet, and broadcast the change.  A connection
    /// id already open for this application is replaced (as on a
    /// reconnect); one open for another application is refused, so that
    /// every connection belongs to exactly one application.
    pub fn handle_peer_connected(
        &mut self,
        interface: GattInterface,
        conn_id: ConnectionId,
        link_role: u8,
        addr: crate::types::BdAddr,
        conn_params: crate::types::GattConnParams,
    ) -> (r: DispatchOutcome)
        requires
            old(self).wf(),
        ensures
            spec_peer_connected_outcome(*old(self), *final(self), interface, conn_id, link_role, addr,
                conn_params, r),
    {
        let ghost pre = *self;
        match self.find_app(interface) {
            None => {
                return DispatchOutcome {
                    actions: Vec::new(),
                    error: Some(Error::UnknownInterface(interface)),
                };
            },
            Some(app_i) => {
                proof {
                    assert(self.apps@[app_i as int].interface == interface);
                    assert(self.has_app(interface));
                }
            },
        }
        let n = self.connections.len();
        let mut i: usize = 0;
        let mut found: Option<usize> = None;
        while i < n
            invariant
                *self == pre,
                pre == *old(self),
                pre.wf(),
                pre.has_app(interface),
                n == self.connections@.len(),
                i <= n,
                match found {
                    Some(f) => f < i && self.connections@[f as int].id == conn_id
                        && self.connections@[f as int].interface == interface,
                    None => forall|j: int| 0 <= j < i
                        ==> #[trigger] self.connections@[j].id != conn_id,
                },
            decreases n - i,
        {
            if self.connections[i].id == conn_id {
                if self.connections[i].interface != interface {
                    proof {
                        assert(pre.connections@[i as int].id == conn_id);
                        assert(pre.connections@[i as int].interface != interface);
                        assert(pre.conn_id_elsewhere(interface, conn_id));
                    }
                    return DispatchOutcome {
                        actions: Vec::new(),
                        error: Some(Error::DuplicateConnection(conn_id)),
                    };
                }
                found = Some(i);
                i = n;
            } else {
                i = i + 1;
            }
        }
        let c = ConnectionInner {
            interface,
            id: conn_id,
            link_role,
            mtu: None,
            address: addr,
            conn_params,
        };
        proof {
            assert(!pre.conn_id_elsewhere(interface, conn_id)) by {
                if pre.conn_id_elsewhere(interface, conn_id) {
                    let w = choose|w: int| 0 <= w < pre.connections@.len()
                        && #[trigger] pre.connections@[w].id == conn_id
                        && pre.connections@[w].interface != interface;
                    match found {
                        Some(f) => {
                            if f as int != w {
                                pre.lemma_conn_at(interface, conn_id, f as int);
                                assert(pre.connections@[f as int].id
                                    == pre.connections@[w].id);
                                if (f as int) < w {
                                    assert(pre.connections@[f as int].id
                                        != pre.connections@[w].id);
                                } else {
                                    assert(pre.connections@[w].id
                                        != pre.connections@[f as int].id);
                                }
                            }
                        },
                        None => {
                            assert(pre.connections@[w].id != conn_id);
                        },
                    }
                }
            }
        }
        match found {
            Some(f) => {
                proof {
                    pre.lemma_conn_at(interface, conn_id, f as int);
                }
                self.connections.set(f, c);
                proof {
                    assert(self.connections_unique()) by {
                        assert forall|a: int, b: int| 0 <= a < b < self.connections@.len()
                            implies #[trigger] self.connections@[a].id
                            != #[trigger] self.connections@[b].id by {
                            assert(pre.connections@[a].id != pre.connections@[b].id);
                            assert(pre.connections@[f as int].id == conn_id);
                        }
                    }
                    assert(self.connections_owned()) by {
                        assert forall|k: int| 0 <= k < self.connections@.len()
                            implies self.has_app(
                            #[trigger] self.connections@[k].interface,
                        ) by {
                            assert(self.connections@[k].interface
                                == pre.connections@[k].interface);
                            assert(pre.has_app(pre.connections@[k].interface));
                            let w = choose|w: int| 0 <= w < pre.apps@.len()
                                && #[trigger] pre.apps@[w].interface
                                    == pre.connections@[k].interface;
                            assert(self.apps@[w].interface
                                == self.connections@[k].interface);
                        }
                    }
                    self.lemma_conn_at(interface, conn_id, f as int);
                }
            },
            None => {
                let ghost fresh = self.connections@.len() as int;
                self.connections.push(c);
                proof {
                    assert(self.connections_unique()) by {
                        assert forall|a: int, b: int| 0 <= a < b < self.connections@.len()
                            implies #[trigger] self.connections@[a].id
                            != #[trigger] self.connections@[b].id by {
                            if b < fresh {
                                assert(pre.connections@[a].id != pre.connections@[b].id);
                            } else {
                                assert(self.connections@[b].id == conn_id);
                                assert(pre.connections@[a].id != conn_id);
                            }
                        }
                    }
                    assert(self.connections_owned()) by {
                        assert forall|k: int| 0 <= k < self.connections@.len()
                            implies self.has_app(
                            #[trigger] self.connections@[k].interface,
                        ) by {
                            if k < fresh {
                                assert(pre.has_app(pre.connections@[k].interface));
                                let w = choose|w: int| 0 <= w < pre.apps@.len()
                                    && #[trigger] pre.apps@[w].interface
                                        == pre.connections@[k].interface;
                                assert(self.apps@[w].interface
                                    == self.connections@[k].interface);
                            } else {
                                assert(pre.has_app(interface));
                                let w = choose|w: int| 0 <= w < pre.apps@.len()
                                    && #[trigger] pre.apps@[w].interface == interface;
                                assert(self.apps@[w].interface == interface);
                            }
                        }
                    }
                    self.lemma_conn_at(interface, conn_id, fresh);
                    assert(!pre.has_conn(interface, conn_id)) by {
                        if pre.has_conn(interface, conn_id) {
                            let w = pre.conn_index(interface, conn_id);
                            assert(pre.connections@[w].id == conn_id);
                        }
                    }
                }
            },
        }
        let mut actions: Vec<Action> = Vec::new();
        actions.push(Action::Broadcast(ConnectionStatus::Connected(c)));
        DispatchOutcome { actions, error: None }
    }

    /// Close a connection: remove it from its application and broadcast the
    /// change.  An unknown connection is reported and nothing changes.
    pub fn handle_peer_disconnected(
        &mut self,
        interface: GattInterface,
        conn_id: ConnectionId,
    ) -> (r: DispatchOutcome)
        requires
            old(self).wf(),
        ensures
            spec_peer_disconnected_outcome(*old(self), *final(self), interface, conn_id, r),
    {
        let ghost pre = *self;
        if self.find_app(interface).is_none() {
            return DispatchOutcome {
                actions: Vec::new(),
                error: Some(Error::UnknownInterface(interface)),
            };
        }
        let conn_i = match self.find_conn(interface, conn_id) {
            Some(i) => i,
            None => {
                return DispatchOutcome {
                    actions: Vec::new(),
                    error: Some(Error::UnknownConnection(conn_id)),
                };
            },
        };
        proof {
            self.lemma_conn_at(interface, conn_id, conn_i as int);
        }
        let gone = self.connections.remove(conn_i);
        proof {
            assert(self.connections_unique()) by {
                assert forall|a: int, b: int| 0 <= a < b < self.connections@.len()
                    implies #[trigger] self.connections@[a].id
                    != #[trigger] self.connections@[b].id by {
                    let a0 = if a < conn_i as int { a } else { a + 1 };
                    let b0 = if b < conn_i as int { b } else { b + 1 };
                    assert(pre.connections@[a0].id != pre.connections@[b0].id);
                }
            }
            assert(self.connections_owned()) by {
                assert forall|k: int| 0 <= k < self.connections@.len() implies self.has_app(
                    #[trigger] self.connections@[k].interface,
                ) by {
                    let k0 = if k < conn_i as int { k } else { k + 1 };
                    assert(self.connections@[k] == pre.connections@[k0]);
                    assert(pre.has_app(pre.connections@[k0].interface));
                    let w = choose|w: int| 0 <= w < pre.apps@.len()
                        && #[trigger] pre.apps@[w].interface
                            == pre.connections@[k0].interface;
                    assert(self.apps@[w].interface == self.connections@[k].interface);
                }
            }
            assert(!self.has_conn(interface, conn_id)) by {
                if self.has_conn(interface, conn_id) {
                    let w = self.conn_index(interface, conn_id);
                    assert(self.connections@[w].id == conn_id);
                    let w0 = if w < conn_i as int { w } else { w + 1 };
                    assert(pre.connections@[w0].id == conn_id
                        && pre.connections@[w0].interface == interface);
                    assert(w0 != conn_i as int);
                    if w0 < conn_i as int {
                        assert(pre.connections@[w0].id != pre.connections@[conn_i as int].id);
                    } else {
                        assert(pre.connections@[conn_i as int].id != pre.connections@[w0].id);
                    }
                }
            }
        }
        let mut actions: Vec<Action> = Vec::new();
        actions.push(Action::Broadcast(ConnectionStatus::Disconnected(gone)));
        DispatchOutcome { actions, error: None }
    }
}


impl GattServer {
    /// Install the long-lived fan-out: read, write, execute-write, peer
    /// connected, peer disconnected and MTU events go to the dispatcher.
    /// These kinds are never awaited by a single request operation.
    pub fn configure_global_events(&mut self)
        requires
            old(self).wf(),
        ensures
            final(self).wf(),
            final(self).apps == old(self).apps,
            final(self).services == old(self).services,
            final(self).characteristics == old(self).characteristics,
            final(self).descriptors == old(self).descriptors,
            final(self).connections == old(self).connections,
            final(self).registry == old(self).registry,
            final(self).write_buffers == old(self).write_buffers,
            forall|k: GattsEventKind| crate::event::spec_is_dispatcher_kind(k)
                ==> final(self).router.slot(k)
                    == Waiter::<GattsEventMessage>::Dispatcher,
            forall|k: GattsEventKind| !crate::event::spec_is_dispatcher_kind(k)
                ==> final(self).router.slot(k) == old(self).router.slot(k),
    {
        self.router.install_dispatcher(GattsEventKind::Read);
        self.router.install_dispatcher(GattsEventKind::Write);
        self.router.install_dispatcher(GattsEventKind::ExecWrite);
        self.router.install_dispatcher(GattsEventKind::PeerConnected);
        self.router.install_dispatcher(GattsEventKind::PeerDisconnected);
        self.router.install_dispatcher(GattsEventKind::Mtu);
        proof {
            let pre = *old(self);
            assert(self.buffers_unique()) by {
                assert forall|a: int, b: int| 0 <= a < b < self.write_buffers@.len()
                    implies #[trigger] self.write_buffers@[a].trans_id
                    != #[trigger] self.write_buffers@[b].trans_id by {
                    assert(pre.write_buffers@[a].trans_id != pre.write_buffers@[b].trans_id);
                }
            }
            Self::lemma_preserve_wf(pre, *self);
        }
    }

    /// Route one event from the host callback: to the dispatcher for the
    /// long-lived kinds, into the correlated slot of a waiting operation,
    /// or back to the caller when nobody waits (to be logged and dropped).
    pub fn route_event(&mut self, msg: GattsEventMessage) -> (r: RouteOutcome<
        GattsEventMessage,
    >)
        requires
            old(self).wf(),
        ensures
            final(self).wf(),
            final(self).apps == old(self).apps,
            final(self).services == old(self).services,
            final(self).characteristics == old(self).characteristics,
            final(self).descriptors == old(self).descriptors,
            final(self).connections == old(self).connections,
            final(self).registry == old(self).registry,
            final(self).write_buffers == old(self).write_buffers,
            forall|k2: GattsEventKind| k2 != spec_gatts_kind(msg.1)
                ==> final(self).router.slot(k2) == old(self).router.slot(k2),
            match r {
                RouteOutcome::Stored => old(self).router.slot(spec_gatts_kind(msg.1))
                    == Waiter::<GattsEventMessage>::Correlated(None)
                    && final(self).router.slot(spec_gatts_kind(msg.1))
                        == Waiter::<GattsEventMessage>::Correlated(Some(msg)),
                RouteOutcome::ToDispatcher(m) => m == msg
                    && old(self).router.slot(spec_gatts_kind(msg.1)) is Dispatcher
                    && final(self).router == old(self).router,
                RouteOutcome::SlotFull(m) => m == msg
                    && (old(self).router.slot(spec_gatts_kind(msg.1))
                        matches Waiter::Correlated(Some(_)))
                    && final(self).router == old(self).router,
                RouteOutcome::NoWaiter(m) => m == msg
                    && old(self).router.slot(spec_gatts_kind(msg.1)) is Vacant
                    && final(self).router == old(self).router,
            },
    {
        let k = msg.1.kind();
        let r = self.router.deliver(k, msg);
        proof {
            let pre = *old(self);
            assert(self.buffers_unique()) by {
                assert forall|a: int, b: int| 0 <= a < b < self.write_buffers@.len()
                    implies #[trigger] self.write_buffers@[a].trans_id
                    != #[trigger] self.write_buffers@[b].trans_id by {
                    assert(pre.write_buffers@[a].trans_id != pre.write_buffers@[b].trans_id);
                }
            }
            Self::lemma_preserve_wf(pre, *self);
        }
        r
    }

    /// Dispatch one event from the long-lived stream.  Read, write,
    /// execute-write, connection and MTU events are served; any other kind
    /// is unexpected here and reported.  Events are processed serially, in
    /// arrival order, so per-attribute write-then-read visibility is
    /// sequential and MTU updates happen before the next read or write of
    /// the same connection.
    pub fn handle_gatts_global_event(&mut self, msg: GattsEventMessage) -> (r:
        DispatchOutcome)
        requires
            old(self).wf(),
        ensures
            final(self).wf(),
            final(self).router == old(self).router,
            match msg.1 {
                GattsEvent::Read { conn_id, trans_id, handle, offset, need_rsp, .. } =>
                    *final(self) == *old(self) && spec_read_outcome(*old(self), msg.0,
                        conn_id, trans_id, handle, offset, need_rsp, r),
                GattsEvent::Write {
                    conn_id, trans_id, handle, offset, need_rsp, is_prep, value, ..
                } => spec_write_outcome(*old(self), *final(self), msg.0, conn_id, trans_id,
                    handle, offset, need_rsp, is_prep, value@, r),
                GattsEvent::ExecWrite { conn_id, trans_id, canceled, .. } =>
                    spec_exec_write_outcome(*old(self), *final(self), msg.0, conn_id,
                        trans_id, canceled, r),
                GattsEvent::PeerConnected { conn_id, link_role, addr, conn_params } =>
                    spec_peer_connected_outcome(*old(self), *final(self), msg.0, conn_id,
                        link_role, addr, conn_params, r),
                GattsEvent::PeerDisconnected { conn_id, .. } =>
                    spec_peer_disconnected_outcome(*old(self), *final(self), msg.0,
                        conn_id, r),
                GattsEvent::Mtu { conn_id, mtu } => spec_mtu_outcome(*old(self),
                    *final(self), msg.0, conn_id, mtu, r),
                _ => *final(self) == *old(self)
                    && r.error == Some(Error::UnexpectedEvent)
                    && r.actions@.len() == 0,
            },
    {
        let GattsEventMessage(interface, event) = msg;
        match event {
            GattsEvent::Read { conn_id, trans_id, handle, offset, need_rsp, .. } => {
                self.handle_read(interface, conn_id, trans_id, handle, offset, need_rsp)
            },
            GattsEvent::Write {
                conn_id, trans_id, handle, offset, need_rsp, is_prep, value, ..
            } => {
                self.handle_write(interface, conn_id, trans_id, handle, offset, need_rsp,
                    is_prep, &value)
            },
            GattsEvent::ExecWrite { conn_id, trans_id, canceled, .. } => {
                self.handle_exec_write(interface, conn_id, trans_id, canceled)
            },
            GattsEvent::PeerConnected { conn_id, link_role, addr, conn_params } => {
                self.handle_peer_connected(interface, conn_id, link_role, addr, conn_params)
            },
            GattsEvent::PeerDisconnected { conn_id, .. } => {
                self.handle_peer_disconnected(interface, conn_id)
            },
            GattsEvent::Mtu { conn_id, mtu } => {
                self.handle_mtu(interface, conn_id, mtu)
            },
            _ => DispatchOutcome { actions: Vec::new(), error: Some(Error::UnexpectedEvent) },
        }
    }
}


/// A call the surrounding program must make into the host stack after a
/// `*_prepare` operation installed the waiter for its reply.
#[derive(Debug, Clone, PartialEq)]
pub enum HostCall {
    RegisterApp { app_id: crate::types::AppId },
    CreateService {
        interface: GattInterface,
        service_id: crate::gatt::ServiceId,
        num_handles: u16,
    },
    AddCharacteristic {
        service_handle: Handle,
        declaration: crate::gatt::GattCharacteristic,
        initial: Vec<u8>,
    },
    AddDescriptor { service_handle: Handle, declaration: crate::gatt::GattDescriptor },
    StartService { handle: Handle },
    StopService { handle: Handle },
}

impl GattServer {
    /// Install the correlated waiter for one reply kind; everything but the
    /// router stays as it is.
    fn install_waiter(&mut self, k: GattsEventKind)
        requires
            old(self).wf(),
        ensures
            final(self).wf(),
            final(self).apps == old(self).apps,
            final(self).services == old(self).services,
            final(self).characteristics == old(self).characteristics,
            final(self).descriptors == old(self).descriptors,
            final(self).connections == old(self).connections,
            final(self).registry == old(self).registry,
            final(self).write_buffers == old(self).write_buffers,
            final(self).router.slot(k) == Waiter::<GattsEventMessage>::Correlated(None),
            forall|k2: GattsEventKind| k2 != k
                ==> final(self).router.slot(k2) == old(self).router.slot(k2),
    {
        self.router.install(k);
        proof {
            let pre = *old(self);
            assert(self.buffers_unique()) by {
                assert forall|a: int, b: int| 0 <= a < b < self.write_buffers@.len()
                    implies #[trigger] self.write_buffers@[a].trans_id
                    != #[trigger] self.write_buffers@[b].trans_id by {
                    assert(pre.write_buffers@[a].trans_id != pre.write_buffers@[b].trans_id);
                }
            }
            Self::lemma_preserve_wf(pre, *self);
        }
    }

    /// Drain and dismantle the correlated waiter for one reply kind: the
    /// reply if one arrived, and no sender left behind.
    fn take_waiter(&mut self, k: GattsEventKind) -> (r: Option<GattsEventMessage>)
        requires
            old(self).wf(),
        ensures
            final(self).wf(),
            final(self).apps == old(self).apps,
            final(self).services == old(self).services,
            final(self).characteristics == old(self).characteristics,
            final(self).descriptors == old(self).descriptors,
            final(self).connections == old(self).connections,
            final(self).registry == old(self).registry,
            final(self).write_buffers == old(self).write_buffers,
            !final(self).router.live(k),
            forall|k2: GattsEventKind| k2 != k
                ==> final(self).router.slot(k2) == old(self).router.slot(k2),
            match old(self).router.slot(k) {
                Waiter::Correlated(Some(m)) => r == Some(m),
                _ => r is None,
            },
    {
        let r = self.router.take(k);
        self.router.vacate(k);
        proof {
            let pre = *old(self);
            assert(self.buffers_unique()) by {
                assert forall|a: int, b: int| 0 <= a < b < self.write_buffers@.len()
                    implies #[trigger] self.write_buffers@[a].trans_id
                    != #[trigger] self.write_buffers@[b].trans_id by {
                    assert(pre.write_buffers@[a].trans_id != pre.write_buffers@[b].trans_id);
                }
            }
            Self::lemma_preserve_wf(pre, *self);
        }
        r
    }

    /// Begin registering an application: install the waiter for the
    /// registration reply and hand back the host call to make.
    pub fn register_app_prepare(&mut self, app_id: crate::types::AppId) -> (r: HostCall)
        requires
            old(self).wf(),
        ensures
            final(self).wf(),
            final(self).apps == old(self).apps,
            final(self).services == old(self).services,
            final(self).characteristics == old(self).characteristics,
            final(self).descriptors == old(self).descriptors,
            final(self).connections == old(self).connections,
            final(self).registry == old(self).registry,
            final(self).write_buffers == old(self).write_buffers,
            final(self).router.slot(GattsEventKind::ServiceRegistered)
                == Waiter::<GattsEventMessage>::Correlated(None),
            forall|k2: GattsEventKind| k2 != GattsEventKind::ServiceRegistered
                ==> final(self).router.slot(k2) == old(self).router.slot(k2),
            r == (HostCall::RegisterApp { app_id }),
    {
        self.install_waiter(GattsEventKind::ServiceRegistered);
        HostCall::RegisterApp { app_id }
    }

    /// Finish registering an application.  The waiter is dismantled on
    /// every path.  The reply must carry the requested application id and a
    /// success status; the interface it arrived on becomes the
    /// application's interface, under which it must not be registered yet.
    pub fn register_app_complete(&mut self, app_id: crate::types::AppId) -> (r: Result<
        GattInterface,
        Error,
    >)
        requires
            old(self).wf(),
        ensures
            final(self).wf(),
            final(self).services == old(self).services,
            final(self).characteristics == old(self).characteristics,
            final(self).descriptors == old(self).descriptors,
            final(self).connections == old(self).connections,
            final(self).registry == old(self).registry,
            final(self).write_buffers == old(self).write_buffers,
            !final(self).router.live(GattsEventKind::ServiceRegistered),
            forall|k2: GattsEventKind| k2 != GattsEventKind::ServiceRegistered
                ==> final(self).router.slot(k2) == old(self).router.slot(k2),
            match old(self).router.slot(GattsEventKind::ServiceRegistered) {
                Waiter::Correlated(Some(m)) => match m.1 {
                    GattsEvent::ServiceRegistered { status, app_id: got } => {
                        if got != app_id {
                            r == Err::<GattInterface, Error>(Error::IdentityMismatch)
                                && final(self).apps == old(self).apps
                        } else if status != GattStatus::Success {
                            r == Err::<GattInterface, Error>(Error::StatusNotOk(status))
                                && final(self).apps == old(self).apps
                        } else if old(self).has_app(m.0) {
                            r == Err::<GattInterface, Error>(Error::DuplicateInterface(m.0))
                                && final(self).apps == old(self).apps
                        } else {
                            r == Ok::<GattInterface, Error>(m.0)
                                && final(self).apps@ == old(self).apps@.push(
                                (AppRecord { id: app_id, interface: m.0 }))
                                && final(self).has_app(m.0)
                        }
                    },
                    _ => r == Err::<GattInterface, Error>(Error::UnexpectedEvent)
                        && final(self).apps == old(self).apps,
                },
                _ => r == Err::<GattInterface, Error>(Error::Timeout)
                    && final(self).apps == old(self).apps,
            },
    {
        let ghost pre = *old(self);
        let taken = self.take_waiter(GattsEventKind::ServiceRegistered);
        let msg = match taken {
            Some(m) => m,
            None => {
                return Err(Error::Timeout);
            },
        };
        let GattsEventMessage(interface, event) = msg;
        match event {
            GattsEvent::ServiceRegistered { status, app_id: got } => {
                if got != app_id {
                    return Err(Error::IdentityMismatch);
                }
                if status != GattStatus::Success {
                    return Err(Error::StatusNotOk(status));
                }
                match self.find_app(interface) {
                    Some(i) => {
                        proof {
                            assert(self.apps@[i as int].interface == interface);
                            assert(pre.has_app(interface));
                        }
                        Err(Error::DuplicateInterface(interface))
                    },
                    None => {
                        let ghost mid = *self;
                        let ghost fresh = self.apps@.len() as int;
                        self.apps.push(AppRecord { id: app_id, interface });
                        proof {
                            assert(!pre.has_app(interface)) by {
                                if pre.has_app(interface) {
                                    let w = pre.app_index(interface);
                                    assert(mid.apps@[w].interface == interface);
                                }
                            }
                            assert(self.apps_unique()) by {
                                assert forall|a: int, b: int| 0 <= a < b < self.apps@.len()
                                    implies #[trigger] self.apps@[a].interface
                                    != #[trigger] self.apps@[b].interface by {
                                    if b < fresh {
                                        assert(mid.apps@[a].interface
                                            != mid.apps@[b].interface);
                                    } else {
                                        assert(mid.apps@[a].interface != interface);
                                    }
                                }
                            }
                            assert(self.connections_owned()) by {
                                assert forall|k: int| 0 <= k < self.connections@.len()
                                    implies self.has_app(
                                    #[trigger] self.connections@[k].interface,
                                ) by {
                                    assert(mid.has_app(mid.connections@[k].interface));
                                    let w = choose|w: int| 0 <= w < mid.apps@.len()
                                        && #[trigger] mid.apps@[w].interface
                                            == mid.connections@[k].interface;
                                    assert(self.apps@[w].interface
                                        == self.connections@[k].interface);
                                }
                            }
                            assert(self.has_app(interface)) by {
                                assert(self.apps@[fresh].interface == interface);
                            }
                        }
                        Ok(interface)
                    },
                }
            },
            _ => Err(Error::UnexpectedEvent),
        }
    }
}


impl GattServer {
    /// Whether this application already registered a service with this
    /// identity.
    pub open spec fn has_service_id(
        self,
        interface: GattInterface,
        id: crate::gatt::ServiceId,
    ) -> bool {
        exists|i: int| 0 <= i < self.services@.len()
            && #[trigger] self.services@[i].interface == interface
            && self.services@[i].id == id
    }

    /// Find a service of an application by its identity.
    fn find_service_id(&self, interface: GattInterface, id: crate::gatt::ServiceId) -> (r:
        Option<usize>)
        ensures
            match r {
                Some(i) => i < self.services@.len()
                    && self.services@[i as int].interface == interface
                    && self.services@[i as int].id == id,
                None => !self.has_service_id(interface, id),
            },
    {
        let n = self.services.len();
        let mut i: usize = 0;
        while i < n
            invariant
                n == self.services@.len(),
                i <= n,
                forall|j: int| 0 <= j < i
                    ==> !(#[trigger] self.services@[j].interface == interface
                        && self.services@[j].id == id),
            decreases n - i,
        {
            if self.services[i].interface == interface && self.services[i].id == id {
                return Some(i);
            }
            i = i + 1;
        }
        None
    }

    /// Begin creating a service: install the waiter for the creation reply
    /// and hand back the host call to make.
    pub fn create_service_prepare(
        &mut self,
        interface: GattInterface,
        service_id: crate::gatt::ServiceId,
        num_handles: u16,
    ) -> (r: HostCall)
        requires
            old(self).wf(),
        ensures
            final(self).wf(),
            final(self).apps == old(self).apps,
            final(self).services == old(self).services,
            final(self).characteristics == old(self).characteristics,
            final(self).descriptors == old(self).descriptors,
            final(self).connections == old(self).connections,
            final(self).registry == old(self).registry,
            final(self).write_buffers == old(self).write_buffers,
            final(self).router.slot(GattsEventKind::ServiceCreated)
                == Waiter::<GattsEventMessage>::Correlated(None),
            forall|k2: GattsEventKind| k2 != GattsEventKind::ServiceCreated
                ==> final(self).router.slot(k2) == old(self).router.slot(k2),
            r == (HostCall::CreateService { interface, service_id, num_handles }),
    {
        self.install_waiter(GattsEventKind::ServiceCreated);
        HostCall::CreateService { interface, service_id, num_handles }
    }

    /// Finish creating a service.  The waiter is dismantled on every path.
    /// The reply must arrive on the requesting interface, name the
    /// requested identity and carry a success status; then the service is
    /// recorded in the `Created` state under the handle the host stack
    /// assigned.  Nothing is retained on failure.
    pub fn create_service_complete(
        &mut self,
        interface: GattInterface,
        service_id: crate::gatt::ServiceId,
        num_handles: u16,
    ) -> (r: Result<Handle, Error>)
        requires
            old(self).wf(),
        ensures
            final(self).wf(),
            final(self).apps == old(self).apps,
            final(self).characteristics == old(self).characteristics,
            final(self).descriptors == old(self).descriptors,
            final(self).connections == old(self).connections,
            final(self).registry == old(self).registry,
            final(self).write_buffers == old(self).write_buffers,
            !final(self).router.live(GattsEventKind::ServiceCreated),
            forall|k2: GattsEventKind| k2 != GattsEventKind::ServiceCreated
                ==> final(self).router.slot(k2) == old(self).router.slot(k2),
            r is Err ==> final(self).services == old(self).services,
            match old(self).router.slot(GattsEventKind::ServiceCreated) {
                Waiter::Correlated(Some(m)) => match m.1 {
                    GattsEvent::ServiceCreated { status, service_handle, service_id: got } => {
                        if m.0 != interface || got != service_id.0 {
                            r == Err::<Handle, Error>(Error::IdentityMismatch)
                        } else if status != GattStatus::Success {
                            r == Err::<Handle, Error>(Error::StatusNotOk(status))
                        } else if !old(self).has_app(interface) {
                            r == Err::<Handle, Error>(Error::UnknownInterface(interface))
                        } else if old(self).has_service_id(interface, service_id) {
                            r == Err::<Handle, Error>(Error::DuplicateService)
                        } else if old(self).has_service(service_handle) {
                            r == Err::<Handle, Error>(Error::DuplicateHandle(service_handle))
                        } else {
                            r == Ok::<Handle, Error>(service_handle)
                                && final(self).services@ == old(self).services@.push(
                                (ServiceRecord {
                                    interface,
                                    id: service_id,
                                    num_handles,
                                    handle: service_handle,
                                    state: crate::gatt::ServiceState::Created,
                                }))
                        }
                    },
                    _ => r == Err::<Handle, Error>(Error::UnexpectedEvent),
                },
                _ => r == Err::<Handle, Error>(Error::Timeout),
            },
    {
        let ghost pre = *old(self);
        let taken = self.take_waiter(GattsEventKind::ServiceCreated);
        let msg = match taken {
            Some(m) => m,
            None => {
                return Err(Error::Timeout);
            },
        };
        let GattsEventMessage(got_interface, event) = msg;
        match event {
            GattsEvent::ServiceCreated { status, service_handle, service_id: got } => {
                if got_interface != interface || !(got == service_id.0) {
                    return Err(Error::IdentityMismatch);
                }
                if status != GattStatus::Success {
                    return Err(Error::StatusNotOk(status));
                }
                match self.find_app(interface) {
                    Some(i) => {
                        proof {
                            assert(self.apps@[i as int].interface == interface);
                            assert(pre.has_app(interface));
                        }
                    },
                    None => {
                        return Err(Error::UnknownInterface(interface));
                    },
                }
                match self.find_service_id(interface, service_id) {
                    Some(i) => {
                        proof {
                            assert(pre.services@[i as int].interface == interface
                                && pre.services@[i as int].id == service_id);
                            assert(pre.has_service_id(interface, service_id));
                        }
                        return Err(Error::DuplicateService);
                    },
                    None => {},
                }
                match self.find_service(service_handle) {
                    Some(i) => {
                        proof {
                            assert(pre.services@[i as int].handle == service_handle);
                            assert(pre.has_service(service_handle));
                        }
                        return Err(Error::DuplicateHandle(service_handle));
                    },
                    None => {},
                }
                let ghost mid = *self;
                let ghost fresh = self.services@.len() as int;
                self.services.push(ServiceRecord {
                    interface,
                    id: service_id,
                    num_handles,
                    handle: service_handle,
                    state: crate::gatt::ServiceState::Created,
                });
                proof {
                    assert(self.services_unique()) by {
                        assert forall|a: int, b: int| 0 <= a < b < self.services@.len()
                            implies #[trigger] self.services@[a].handle
                            != #[trigger] self.services@[b].handle by {
                            if b < fresh {
                                assert(mid.services@[a].handle != mid.services@[b].handle);
                            } else {
                                assert(mid.services@[a].handle != service_handle);
                            }
                        }
                        assert forall|a: int, b: int| 0 <= a < b < self.services@.len()
                            implies !(#[trigger] self.services@[a].interface
                            == #[trigger] self.services@[b].interface
                            && self.services@[a].id == self.services@[b].id) by {
                            if b < fresh {
                                assert(!(mid.services@[a].interface
                                    == mid.services@[b].interface
                                    && mid.services@[a].id == mid.services@[b].id));
                            } else {
                                assert(!(mid.services@[a].interface == interface
                                    && mid.services@[a].id == service_id));
                            }
                        }
                    }
                    assert(self.buffers_unique()) by {
                        assert forall|a: int, b: int| 0 <= a < b < self.write_buffers@.len()
                            implies #[trigger] self.write_buffers@[a].trans_id
                            != #[trigger] self.write_buffers@[b].trans_id by {
                            assert(mid.write_buffers@[a].trans_id
                                != mid.write_buffers@[b].trans_id);
                        }
                    }
                    Self::lemma_preserve_wf(mid, *self);
                }
                Ok(service_handle)
            },
            _ => Err(Error::UnexpectedEvent),
        }
    }

    /// Begin starting a service: install the waiter for the reply and hand
    /// back the host call.  The service must be registered.
    pub fn start_service_prepare(&mut self, service_handle: Handle) -> (r: Result<
        HostCall,
        Error,
    >)
        requires
            old(self).wf(),
        ensures
            final(self).wf(),
            final(self).apps == old(self).apps,
            final(self).services == old(self).services,
            final(self).characteristics == old(self).characteristics,
            final(self).descriptors == old(self).descriptors,
            final(self).connections == old(self).connections,
            final(self).registry == old(self).registry,
            final(self).write_buffers == old(self).write_buffers,
            !old(self).has_service(service_handle) ==> {
                &&& r == Err::<HostCall, Error>(Error::UnknownHandle(service_handle))
                &&& final(self).router == old(self).router
            },
            old(self).has_service(service_handle) ==> {
                &&& r == Ok::<HostCall, Error>(HostCall::StartService {
                    handle: service_handle,
                })
                &&& final(self).router.slot(GattsEventKind::ServiceStarted)
                    == Waiter::<GattsEventMessage>::Correlated(None)
                &&& forall|k2: GattsEventKind| k2 != GattsEventKind::ServiceStarted
                    ==> final(self).router.slot(k2) == old(self).router.slot(k2)
            },
    {
        match self.find_service(service_handle) {
            Some(i) => {
                proof {
                    assert(self.services@[i as int].handle == service_handle);
                    assert(self.has_service(service_handle));
                }
            },
            None => {
                return Err(Error::UnknownHandle(service_handle));
            },
        }
        self.install_waiter(GattsEventKind::ServiceStarted);
        Ok(HostCall::StartService { handle: service_handle })
    }

    /// Finish starting a service: on a success reply naming this handle the
    /// service moves to `Started`.  Every transition a service takes is one
    /// of created-to-started, started-to-stopped, stopped-to-started, or
    /// staying put.
    pub fn start_service_complete(&mut self, service_handle: Handle) -> (r: Result<(), Error>)
        requires
            old(self).wf(),
        ensures
            final(self).wf(),
            final(self).apps == old(self).apps,
            final(self).characteristics == old(self).characteristics,
            final(self).descriptors == old(self).descriptors,
            final(self).connections == old(self).connections,
            final(self).registry == old(self).registry,
            final(self).write_buffers == old(self).write_buffers,
            !final(self).router.live(GattsEventKind::ServiceStarted),
            forall|k2: GattsEventKind| k2 != GattsEventKind::ServiceStarted
                ==> final(self).router.slot(k2) == old(self).router.slot(k2),
            r is Err ==> final(self).services == old(self).services,
            r is Ok ==> {
                &&& old(self).has_service(service_handle)
                &&& final(self).services@ == old(self).services@.update(
                    old(self).service_index(service_handle),
                    (ServiceRecord {
                        state: crate::gatt::ServiceState::Started,
                        ..old(self).services@[old(self).service_index(service_handle)]
                    }),
                )
                &&& crate::gatt::spec_lifecycle_step(
                    old(self).services@[old(self).service_index(service_handle)].state,
                    crate::gatt::ServiceState::Started,
                )
            },
            match old(self).router.slot(GattsEventKind::ServiceStarted) {
                Waiter::Correlated(Some(m)) => match m.1 {
                    GattsEvent::ServiceStarted { status, service_handle: sh } => {
                        if sh != service_handle {
                            r == Err::<(), Error>(Error::IdentityMismatch)
                        } else if status != GattStatus::Success {
                            r == Err::<(), Error>(Error::StatusNotOk(status))
                        } else if !old(self).has_service(service_handle) {
                            r == Err::<(), Error>(Error::UnknownHandle(service_handle))
                        } else {
                            r is Ok
                        }
                    },
                    _ => r == Err::<(), Error>(Error::UnexpectedEvent),
                },
                _ => r == Err::<(), Error>(Error::Timeout),
            },
    {
        let ghost pre = *old(self);
        let taken = self.take_waiter(GattsEventKind::ServiceStarted);
        let msg = match taken {
            Some(m) => m,
            None => {
                return Err(Error::Timeout);
            },
        };
        match msg.1 {
            GattsEvent::ServiceStarted { status, service_handle: sh } => {
                if sh != service_handle {
                    return Err(Error::IdentityMismatch);
                }
                if status != GattStatus::Success {
                    return Err(Error::StatusNotOk(status));
                }
                let i = match self.find_service(service_handle) {
                    Some(i) => i,
                    None => {
                        return Err(Error::UnknownHandle(service_handle));
                    },
                };
                proof {
                    self.lemma_service_at(service_handle, i as int);
                    pre.lemma_service_at(service_handle, i as int);
                }
                let mut rec = self.services[i];
                let ghost old_state = rec.state;
                rec.state = crate::gatt::ServiceState::Started;
                self.services.set(i, rec);
                proof {
                    let mid = pre;
                    assert(self.services_unique()) by {
                        assert forall|a: int, b: int| 0 <= a < b < self.services@.len()
                            implies #[trigger] self.services@[a].handle
                            != #[trigger] self.services@[b].handle by {
                            assert(mid.services@[a].handle != mid.services@[b].handle);
                        }
                        assert forall|a: int, b: int| 0 <= a < b < self.services@.len()
                            implies !(#[trigger] self.services@[a].interface
                            == #[trigger] self.services@[b].interface
                            && self.services@[a].id == self.services@[b].id) by {
                            assert(!(mid.services@[a].interface == mid.services@[b].interface
                                && mid.services@[a].id == mid.services@[b].id));
                        }
                    }
                    assert(self.buffers_unique()) by {
                        assert forall|a: int, b: int| 0 <= a < b < self.write_buffers@.len()
                            implies #[trigger] self.write_buffers@[a].trans_id
                            != #[trigger] self.write_buffers@[b].trans_id by {
                            assert(mid.write_buffers@[a].trans_id
                                != mid.write_buffers@[b].trans_id);
                        }
                    }
                    Self::lemma_preserve_wf(mid, *self);
                }
                Ok(())
            },
            _ => Err(Error::UnexpectedEvent),
        }
    }

    /// Begin stopping a service: install the waiter for the reply and hand
    /// back the host call.  Only a service that has been started (and is
    /// not freshly created) can stop.
    pub fn stop_service_prepare(&mut self, service_handle: Handle) -> (r: Result<
        HostCall,
        Error,
    >)
        requires
            old(self).wf(),
        ensures
            final(self).wf(),
            final(self).apps == old(self).apps,
            final(self).services == old(self).services,
            final(self).characteristics == old(self).characteristics,
            final(self).descriptors == old(self).descriptors,
            final(self).connections == old(self).connections,
            final(self).registry == old(self).registry,
            final(self).write_buffers == old(self).write_buffers,
            !old(self).has_service(service_handle) ==> {
                &&& r == Err::<HostCall, Error>(Error::UnknownHandle(service_handle))
                &&& final(self).router == old(self).router
            },
            old(self).has_service(service_handle)
                && old(self).services@[old(self).service_index(service_handle)].state
                    == crate::gatt::ServiceState::Created ==> {
                &&& r == Err::<HostCall, Error>(Error::InvalidServiceState)
                &&& final(self).router == old(self).router
            },
            old(self).has_service(service_handle)
                && old(self).services@[old(self).service_index(service_handle)].state
                    != crate::gatt::ServiceState::Created ==> {
                &&& r == Ok::<HostCall, Error>(HostCall::StopService {
                    handle: service_handle,
                })
                &&& final(self).router.slot(GattsEventKind::ServiceStopped)
                    == Waiter::<GattsEventMessage>::Correlated(None)
                &&& forall|k2: GattsEventKind| k2 != GattsEventKind::ServiceStopped
                    ==> final(self).router.slot(k2) == old(self).router.slot(k2)
            },
    {
        match self.find_service(service_handle) {
            Some(i) => {
                proof {
                    self.lemma_service_at(service_handle, i as int);
                }
                if self.services[i].state == crate::gatt::ServiceState::Created {
                    return Err(Error::InvalidServiceState);
                }
            },
            None => {
                return Err(Error::UnknownHandle(service_handle));
            },
        }
        self.install_waiter(GattsEventKind::ServiceStopped);
        Ok(HostCall::StopService { handle: service_handle })
    }

    /// Finish stopping a service: on a success reply naming this handle the
    /// service moves to `Stopped`.  A freshly created service never stops.
    pub fn stop_service_complete(&mut self, service_handle: Handle) -> (r: Result<(), Error>)
        requires
            old(self).wf(),
        ensures
            final(self).wf(),
            final(self).apps == old(self).apps,
            final(self).characteristics == old(self).characteristics,
            final(self).descriptors == old(self).descriptors,
            final(self).connections == old(self).connections,
            final(self).registry == old(self).registry,
            final(self).write_buffers == old(self).write_buffers,
            !final(self).router.live(GattsEventKind::ServiceStopped),
            forall|k2: GattsEventKind| k2 != GattsEventKind::ServiceStopped
                ==> final(self).router.slot(k2) == old(self).router.slot(k2),
            r is Err ==> final(self).services == old(self).services,
            r is Ok ==> {
                &&& old(self).has_service(service_handle)
                &&& final(self).services@ == old(self).services@.update(
                    old(self).service_index(service_handle),
                    (ServiceRecord {
                        state: crate::gatt::ServiceState::Stopped,
                        ..old(self).services@[old(self).service_index(service_handle)]
                    }),
                )
                &&& crate::gatt::spec_lifecycle_step(
                    old(self).services@[old(self).service_index(service_handle)].state,
                    crate::gatt::ServiceState::Stopped,
                )
            },
            match old(self).router.slot(GattsEventKind::ServiceStopped) {
                Waiter::Correlated(Some(m)) => match m.1 {
                    GattsEvent::ServiceStopped { status, service_handle: sh } => {
                        if sh != service_handle {
                            r == Err::<(), Error>(Error::IdentityMismatch)
                        } else if status != GattStatus::Success {
                            r == Err::<(), Error>(Error::StatusNotOk(status))
                        } else if !old(self).has_service(service_handle) {
                            r == Err::<(), Error>(Error::UnknownHandle(service_handle))
                        } else if old(self).services@[old(self).service_index(
                            service_handle,
                        )].state == crate::gatt::ServiceState::Created {
                            r == Err::<(), Error>(Error::InvalidServiceState)
                        } else {
                            r is Ok
                        }
                    },
                    _ => r == Err::<(), Error>(Error::UnexpectedEvent),
                },
                _ => r == Err::<(), Error>(Error::Timeout),
            },
    {
        let ghost pre = *old(self);
        let taken = self.take_waiter(GattsEventKind::ServiceStopped);
        let msg = match taken {
            Some(m) => m,
            None => {
                return Err(Error::Timeout);
            },
        };
        match msg.1 {
            GattsEvent::ServiceStopped { status, service_handle: sh } => {
                if sh != service_handle {
                    return Err(Error::IdentityMismatch);
                }
                if status != GattStatus::Success {
                    return Err(Error::StatusNotOk(status));
                }
                let i = match self.find_service(service_handle) {
                    Some(i) => i,
                    None => {
                        return Err(Error::UnknownHandle(service_handle));
                    },
                };
                proof {
                    self.lemma_service_at(service_handle, i as int);
                    pre.lemma_service_at(service_handle, i as int);
                }
                if self.services[i].state == crate::gatt::ServiceState::Created {
                    return Err(Error::InvalidServiceState);
                }
                let mut rec = self.services[i];
                rec.state = crate::gatt::ServiceState::Stopped;
                self.services.set(i, rec);
                proof {
                    let mid = pre;
                    assert(self.services_unique()) by {
                        assert forall|a: int, b: int| 0 <= a < b < self.services@.len()
                            implies #[trigger] self.services@[a].handle
                            != #[trigger] self.services@[b].handle by {
                            assert(mid.services@[a].handle != mid.services@[b].handle);
                        }
                        assert forall|a: int, b: int| 0 <= a < b < self.services@.len()
                            implies !(#[trigger] self.services@[a].interface
                            == #[trigger] self.services@[b].interface
                            && self.services@[a].id == self.services@[b].id) by {
                            assert(!(mid.services@[a].interface == mid.services@[b].interface
                                && mid.services@[a].id == mid.services@[b].id));
                        }
                    }
                    assert(self.buffers_unique()) by {
                        assert forall|a: int, b: int| 0 <= a < b < self.write_buffers@.len()
                            implies #[trigger] self.write_buffers@[a].trans_id
                            != #[trigger] self.write_buffers@[b].trans_id by {
                            assert(mid.write_buffers@[a].trans_id
                                != mid.write_buffers@[b].trans_id);
                        }
                    }
                    Self::lemma_preserve_wf(mid, *self);
                }
                Ok(())
            },
            _ => Err(Error::UnexpectedEvent),
        }
    }
}


/// Whether a descriptor record is the registration record of this abstract
/// descriptor, attached to this characteristic and not yet registered.
pub open spec fn descriptor_record_matches(
    rec: DescriptorRecord,
    m: crate::gatt::DescriptorModel,
    char_handle: Handle,
) -> bool {
    &&& rec.char_handle == char_handle
    &&& rec.uuid == m.uuid
    &&& rec.readable == m.readable
    &&& rec.writable == m.writable
    &&& rec.codec == m.codec
    &&& rec.initial@ == m.initial
    &&& rec.handle is None
}

impl GattServer {
    /// Whether a characteristic with this handle is registered.
    pub open spec fn has_char(self, h: Handle) -> bool {
        exists|i: int| 0 <= i < self.characteristics@.len()
            && #[trigger] self.characteristics@[i].handle == h
    }

    /// The index of the characteristic with this handle.
    pub open spec fn char_index(self, h: Handle) -> int {
        choose|i: int| 0 <= i < self.characteristics@.len()
            && #[trigger] self.characteristics@[i].handle == h
    }

    /// Find the index of the characteristic with a handle.
    fn find_char(&self, h: Handle) -> (r: Option<usize>)
        ensures
            match r {
                Some(i) => i < self.characteristics@.len()
                    && self.characteristics@[i as int].handle == h,
                None => !self.has_char(h),
            },
    {
        let n = self.characteristics.len();
        let mut i: usize = 0;
        while i < n
            invariant
                n == self.characteristics@.len(),
                i <= n,
                forall|j: int| 0 <= j < i ==> #[trigger] self.characteristics@[j].handle != h,
            decreases n - i,
        {
            if self.characteristics[i].handle == h {
                return Some(i);
            }
            i = i + 1;
        }
        None
    }

    /// Begin adding a characteristic to a service: install the waiter for
    /// the reply and hand back the host call.  The host stack receives an
    /// empty initial value; real values are served from the attribute cell
    /// on demand.
    pub fn add_characteristic_prepare(
        &mut self,
        service_handle: Handle,
        config: &crate::gatt::CharacteristicConfig,
    ) -> (r: Result<HostCall, Error>)
        requires
            old(self).wf(),
        ensures
            final(self).wf(),
            final(self).apps == old(self).apps,
            final(self).services == old(self).services,
            final(self).characteristics == old(self).characteristics,
            final(self).descriptors == old(self).descriptors,
            final(self).connections == old(self).connections,
            final(self).registry == old(self).registry,
            final(self).write_buffers == old(self).write_buffers,
            !old(self).has_service(service_handle) ==> {
                &&& r == Err::<HostCall, Error>(Error::UnknownHandle(service_handle))
                &&& final(self).router == old(self).router
            },
            old(self).has_service(service_handle) ==> {
                &&& (r matches Ok(c) && (c matches HostCall::AddCharacteristic {
                    service_handle: sh2, declaration, initial,
                } && sh2 == service_handle && declaration == config.spec_declaration()
                    && initial@.len() == 0))
                &&& final(self).router.slot(GattsEventKind::CharacteristicAdded)
                    == Waiter::<GattsEventMessage>::Correlated(None)
                &&& forall|k2: GattsEventKind| k2 != GattsEventKind::CharacteristicAdded
                    ==> final(self).router.slot(k2) == old(self).router.slot(k2)
            },
    {
        match self.find_service(service_handle) {
            Some(i) => {
                proof {
                    assert(self.services@[i as int].handle == service_handle);
                    assert(self.has_service(service_handle));
                }
            },
            None => {
                return Err(Error::UnknownHandle(service_handle));
            },
        }
        self.install_waiter(GattsEventKind::CharacteristicAdded);
        Ok(HostCall::AddCharacteristic {
            service_handle,
            declaration: config.to_gatt_characteristic(),
            initial: Vec::new(),
        })
    }

    /// Finish adding a characteristic.  The waiter is dismantled on every
    /// path.  The reply must arrive on the requesting interface, name the
    /// characteristic's UUID and its service, and carry a success status.
    /// The commit records the characteristic under the handle the host
    /// stack assigned, creates its registry entry holding the initial value
    /// bytes, and attaches its descriptors awaiting registration: the
    /// automatic ones first (CCCD when notification is enabled, SCCD when
    /// broadcast, the user description when configured), then the
    /// user-supplied ones.  Nothing is retained on failure.
    pub fn add_characteristic_complete(
        &mut self,
        interface: GattInterface,
        service_handle: Handle,
        config: crate::gatt::CharacteristicConfig,
        codec: CodecKind,
        initial: &Vec<u8>,
        user_descriptors: &Vec<crate::gatt::Descriptor>,
    ) -> (r: Result<Handle, Error>)
        requires
            old(self).wf(),
        ensures
            final(self).wf(),
            final(self).apps == old(self).apps,
            final(self).services == old(self).services,
            final(self).connections == old(self).connections,
            final(self).write_buffers == old(self).write_buffers,
            !final(self).router.live(GattsEventKind::CharacteristicAdded),
            forall|k2: GattsEventKind| k2 != GattsEventKind::CharacteristicAdded
                ==> final(self).router.slot(k2) == old(self).router.slot(k2),
            r is Err ==> final(self).characteristics == old(self).characteristics
                && final(self).descriptors == old(self).descriptors
                && final(self).registry == old(self).registry,
            match old(self).router.slot(GattsEventKind::CharacteristicAdded) {
                Waiter::Correlated(Some(m)) => match m.1 {
                    GattsEvent::CharacteristicAdded {
                        status, attr_handle, service_handle: sh, char_uuid,
                    } => {
                        if m.0 != interface || char_uuid != config.uuid
                            || sh != service_handle {
                            r == Err::<Handle, Error>(Error::IdentityMismatch)
                        } else if status != GattStatus::Success {
                            r == Err::<Handle, Error>(Error::StatusNotOk(status))
                        } else if !old(self).has_service(service_handle) {
                            r == Err::<Handle, Error>(Error::UnknownHandle(service_handle))
                        } else if crate::gatt::spec_descriptor_collision(
                            config,
                            crate::gatt::descriptor_views(user_descriptors@),
                        ) {
                            r == Err::<Handle, Error>(Error::DuplicateUuid)
                        } else if old(self).registry_has(attr_handle) {
                            r == Err::<Handle, Error>(Error::DuplicateHandle(attr_handle))
                        } else {
                            let planned = crate::gatt::spec_auto_models(config)
                                + crate::gatt::descriptor_views(user_descriptors@);
                            &&& r == Ok::<Handle, Error>(attr_handle)
                            &&& final(self).characteristics@
                                == old(self).characteristics@.push(
                                (CharacteristicRecord {
                                    service_handle,
                                    config,
                                    handle: attr_handle,
                                }))
                            &&& final(self).registry@.len()
                                == old(self).registry@.len() + 1
                            &&& forall|k: int| 0 <= k < old(self).registry@.len()
                                ==> #[trigger] final(self).registry@[k]
                                    == old(self).registry@[k]
                            &&& final(self).registry@[old(self).registry@.len() as int].handle
                                == attr_handle
                            &&& final(self).registry@[old(self).registry@.len() as int].codec
                                == codec
                            &&& final(self).registry@[old(self).registry@.len() as int]
                                .value@ == initial@
                            &&& final(self).registry@[old(self).registry@.len() as int]
                                .pending is None
                            &&& final(self).descriptors@.len()
                                == old(self).descriptors@.len() + planned.len()
                            &&& forall|k: int| 0 <= k < old(self).descriptors@.len()
                                ==> #[trigger] final(self).descriptors@[k]
                                    == old(self).descriptors@[k]
                            &&& forall|j: int| 0 <= j < planned.len()
                                ==> descriptor_record_matches(
                                    #[trigger] final(self).descriptors@[
                                        old(self).descriptors@.len() + j],
                                    planned[j],
                                    attr_handle,
                                )
                        }
                    },
                    _ => r == Err::<Handle, Error>(Error::UnexpectedEvent),
                },
                _ => r == Err::<Handle, Error>(Error::Timeout),
            },
    {
        let ghost pre = *old(self);
        let taken = self.take_waiter(GattsEventKind::CharacteristicAdded);
        let msg = match taken {
            Some(m) => m,
            None => {
                return Err(Error::Timeout);
            },
        };
        let GattsEventMessage(got_interface, event) = msg;
        match event {
            GattsEvent::CharacteristicAdded {
                status, attr_handle, service_handle: sh, char_uuid,
            } => {
                if got_interface != interface || !(char_uuid == config.uuid)
                    || sh != service_handle {
                    return Err(Error::IdentityMismatch);
                }
                if status != GattStatus::Success {
                    return Err(Error::StatusNotOk(status));
                }
                match self.find_service(service_handle) {
                    Some(i) => {
                        proof {
                            assert(self.services@[i as int].handle == service_handle);
                            assert(pre.services@[i as int].handle == service_handle);
                            assert(pre.has_service(service_handle));
                        }
                    },
                    None => {
                        proof {
                            if pre.has_service(service_handle) {
                                let w = choose|w: int| 0 <= w < pre.services@.len()
                                    && #[trigger] pre.services@[w].handle == service_handle;
                                assert(self.services@[w].handle == service_handle);
                            }
                        }
                        return Err(Error::UnknownHandle(service_handle));
                    },
                }
                let mut planned = match crate::gatt::plan_descriptors(&config,
                    user_descriptors) {
                    Ok(p) => p,
                    Err(e) => {
                        return Err(e);
                    },
                };
                match self.find_attr(attr_handle) {
                    Some(i) => {
                        proof {
                            assert(self.registry@[i as int].handle == attr_handle);
                            assert(pre.registry@[i as int].handle == attr_handle);
                            assert(pre.registry_has(attr_handle));
                        }
                        return Err(Error::DuplicateHandle(attr_handle));
                    },
                    None => {
                        proof {
                            Self::lemma_same_registry(pre, *self);
                        }
                    },
                }
                let ghost mid = *self;
                let ghost plan_views = crate::gatt::descriptor_views(planned@);
                let ghost reg_len = self.registry@.len() as int;
                let ghost desc_len = self.descriptors@.len() as int;
                self.characteristics.push(CharacteristicRecord {
                    service_handle,
                    config,
                    handle: attr_handle,
                });
                self.registry.push(AttrEntry {
                    handle: attr_handle,
                    codec,
                    value: crate::codec::copy_bytes(initial),
                    pending: None,
                });
                let n = planned.len();
                let mut j: usize = 0;
                while j < n
                    invariant
                        n == planned@.len(),
                        plan_views.len() == n,
                        j <= n,
                        forall|jj: int| j <= jj < n
                            ==> #[trigger] planned@[jj]@ == plan_views[jj],
                        self.descriptors@.len() == desc_len + j,
                        desc_len == mid.descriptors@.len(),
                        forall|k: int| 0 <= k < desc_len
                            ==> #[trigger] self.descriptors@[k] == mid.descriptors@[k],
                        forall|jj: int| 0 <= jj < j ==> descriptor_record_matches(
                            #[trigger] self.descriptors@[desc_len + jj],
                            plan_views[jj],
                            attr_handle,
                        ),
                        self.apps == mid.apps,
                        self.services == mid.services,
                        self.connections == mid.connections,
                        self.write_buffers == mid.write_buffers,
                        self.router == mid.router,
                        self.characteristics@ == mid.characteristics@.push(
                            (CharacteristicRecord {
                                service_handle,
                                config,
                                handle: attr_handle,
                            })),
                        self.registry@.len() == reg_len + 1,
                        forall|k: int| 0 <= k < reg_len
                            ==> #[trigger] self.registry@[k] == mid.registry@[k],
                        self.registry@[reg_len].handle == attr_handle,
                        self.registry@[reg_len].codec == codec,
                        self.registry@[reg_len].value@ == initial@,
                        self.registry@[reg_len].pending is None,
                    decreases n - j,
                {
                    let mut item = crate::gatt::Descriptor {
                        uuid: BtUuid::Uuid16(0),
                        readable: false,
                        writable: false,
                        codec: CodecKind::Bytes,
                        initial: Vec::new(),
                    };
                    proof {
                        assert(planned@[j as int]@ == plan_views[j as int]);
                    }
                    planned.set_and_swap(j, &mut item);
                    self.descriptors.push(DescriptorRecord {
                        char_handle: attr_handle,
                        uuid: item.uuid,
                        readable: item.readable,
                        writable: item.writable,
                        codec: item.codec,
                        initial: item.initial,
                        handle: None,
                    });
                    j = j + 1;
                }
                proof {
                    let autos = crate::gatt::spec_auto_models(config);
                    let user_views = crate::gatt::descriptor_views(user_descriptors@);
                    crate::gatt::lemma_auto_models_distinct(config);
                    assert forall|a: int, b: int| 0 <= a < b < plan_views.len()
                        implies #[trigger] plan_views[a].uuid
                        != #[trigger] plan_views[b].uuid by {
                        if b < autos.len() {
                            assert(plan_views[a] == autos[a] && plan_views[b] == autos[b]);
                        } else if a < autos.len() {
                            assert(plan_views[b] == user_views[b - autos.len()]);
                            assert(plan_views[a] == autos[a]);
                            assert(!crate::gatt::spec_has_uuid(autos,
                                user_views[b - autos.len()].uuid));
                        } else {
                            assert(plan_views[a] == user_views[a - autos.len()]);
                            assert(plan_views[b] == user_views[b - autos.len()]);
                        }
                    }
                    if config.enable_notify {
                        assert(plan_views[0] == autos[0]);
                        assert(autos[0] == crate::gatt::spec_cccd_model());
                    }
                    Self::lemma_char_commit_wf(pre, *self, attr_handle, plan_views, config);
                }
                Ok(attr_handle)
            },
            _ => Err(Error::UnexpectedEvent),
        }
    }

    /// Committing a characteristic keeps the server well-formed: the new
    /// handle was fresh, the new descriptors carry pairwise distinct UUIDs
    /// and decorate the new (registered) characteristic, and when
    /// notification is enabled the first new descriptor is the CCCD.
    proof fn lemma_char_commit_wf(
        pre: GattServer,
        post: GattServer,
        attr_handle: Handle,
        plan_views: Seq<crate::gatt::DescriptorModel>,
        config: crate::gatt::CharacteristicConfig,
    )
        requires
            pre.wf(),
            !pre.registry_has(attr_handle),
            post.apps == pre.apps,
            post.services == pre.services,
            post.connections == pre.connections,
            post.write_buffers == pre.write_buffers,
            post.router.wf(),
            post.characteristics@.len() == pre.characteristics@.len() + 1,
            forall|k: int| 0 <= k < pre.characteristics@.len()
                ==> #[trigger] post.characteristics@[k] == pre.characteristics@[k],
            post.characteristics@[pre.characteristics@.len() as int].handle == attr_handle,
            post.characteristics@[pre.characteristics@.len() as int].config == config,
            post.registry@.len() == pre.registry@.len() + 1,
            forall|k: int| 0 <= k < pre.registry@.len()
                ==> #[trigger] post.registry@[k] == pre.registry@[k],
            post.registry@[pre.registry@.len() as int].handle == attr_handle,
            post.descriptors@.len() == pre.descriptors@.len() + plan_views.len(),
            forall|k: int| 0 <= k < pre.descriptors@.len()
                ==> #[trigger] post.descriptors@[k] == pre.descriptors@[k],
            forall|j: int| 0 <= j < plan_views.len() ==> descriptor_record_matches(
                #[trigger] post.descriptors@[pre.descriptors@.len() + j],
                plan_views[j],
                attr_handle,
            ),
            forall|a: int, b: int| 0 <= a < b < plan_views.len()
                ==> #[trigger] plan_views[a].uuid != #[trigger] plan_views[b].uuid,
            config.enable_notify ==> plan_views.len() > 0
                && plan_views[0] == crate::gatt::spec_cccd_model(),
        ensures
            post.wf(),
    {
        let regn = pre.registry@.len() as int;
        let descn = pre.descriptors@.len() as int;
        assert(post.registry_unique()) by {
            assert forall|i: int, j: int| 0 <= i < j < post.registry@.len()
                implies #[trigger] post.registry@[i].handle
                != #[trigger] post.registry@[j].handle by {
                if j < regn {
                    assert(pre.registry@[i].handle != pre.registry@[j].handle);
                } else {
                    assert(post.registry@[j].handle == attr_handle);
                    assert(pre.registry@[i].handle != attr_handle);
                }
            }
        }
        assert forall|h: Handle| pre.registry_has(h) implies post.registry_has(h) by {
            let w = choose|w: int| 0 <= w < pre.registry@.len()
                && #[trigger] pre.registry@[w].handle == h;
            assert(post.registry@[w].handle == h);
        }
        assert(post.registry_has(attr_handle)) by {
            assert(post.registry@[regn].handle == attr_handle);
        }
        assert(post.apps_unique()) by {
            assert forall|a: int, b: int| 0 <= a < b < post.apps@.len()
                implies #[trigger] post.apps@[a].interface
                != #[trigger] post.apps@[b].interface by {
                assert(pre.apps@[a].interface != pre.apps@[b].interface);
            }
        }
        assert(post.connections_unique()) by {
            assert forall|a: int, b: int| 0 <= a < b < post.connections@.len()
                implies #[trigger] post.connections@[a].id
                != #[trigger] post.connections@[b].id by {
                assert(pre.connections@[a].id != pre.connections@[b].id);
            }
        }
        assert(post.connections_owned()) by {
            assert forall|k: int| 0 <= k < post.connections@.len() implies post.has_app(
                #[trigger] post.connections@[k].interface,
            ) by {
                assert(pre.has_app(pre.connections@[k].interface));
                let w = choose|w: int| 0 <= w < pre.apps@.len()
                    && #[trigger] pre.apps@[w].interface == pre.connections@[k].interface;
                assert(post.apps@[w].interface == post.connections@[k].interface);
            }
        }
        assert(post.services_unique()) by {
            assert forall|a: int, b: int| 0 <= a < b < post.services@.len()
                implies #[trigger] post.services@[a].handle
                != #[trigger] post.services@[b].handle by {
                assert(pre.services@[a].handle != pre.services@[b].handle);
            }
            assert forall|a: int, b: int| 0 <= a < b < post.services@.len()
                implies !(#[trigger] post.services@[a].interface
                == #[trigger] post.services@[b].interface
                && post.services@[a].id == post.services@[b].id) by {
                assert(!(pre.services@[a].interface == pre.services@[b].interface
                    && pre.services@[a].id == pre.services@[b].id));
            }
        }
        assert(post.characteristics_unique()) by {
            assert forall|a: int, b: int| 0 <= a < b < post.characteristics@.len()
                implies #[trigger] post.characteristics@[a].handle
                != #[trigger] post.characteristics@[b].handle by {
                if b < pre.characteristics@.len() {
                    assert(pre.characteristics@[a].handle != pre.characteristics@[b].handle);
                } else {
                    assert(post.characteristics@[b].handle == attr_handle);
                    assert(post.characteristics@[a] == pre.characteristics@[a]);
                    assert(pre.registry_has(pre.characteristics@[a].handle));
                    if pre.characteristics@[a].handle == attr_handle {
                        assert(pre.registry_has(attr_handle));
                    }
                }
            }
        }
        assert(post.characteristics_registered()) by {
            assert forall|i: int| 0 <= i < post.characteristics@.len()
                implies post.registry_has(#[trigger] post.characteristics@[i].handle) by {
                if i < pre.characteristics@.len() {
                    assert(post.characteristics@[i] == pre.characteristics@[i]);
                    assert(pre.registry_has(pre.characteristics@[i].handle));
                } else {
                    assert(post.characteristics@[i].handle == attr_handle);
                }
            }
        }
        assert(post.descriptors_registered()) by {
            assert forall|i: int| 0 <= i < post.descriptors@.len() implies ((
            #[trigger] post.descriptors@[i].handle) matches Some(h)
                ==> post.registry_has(h)) by {
                if i < descn {
                    assert(post.descriptors@[i] == pre.descriptors@[i]);
                    if pre.descriptors@[i].handle is Some {
                        assert(pre.registry_has(pre.descriptors@[i].handle.unwrap()));
                    }
                } else {
                    let j = i - descn;
                    assert(descriptor_record_matches(post.descriptors@[descn + j],
                        plan_views[j], attr_handle));
                }
            }
        }
        assert(post.descriptors_attached()) by {
            assert forall|i: int| 0 <= i < post.descriptors@.len()
                implies post.registry_has(#[trigger] post.descriptors@[i].char_handle) by {
                if i < descn {
                    assert(post.descriptors@[i] == pre.descriptors@[i]);
                    assert(pre.registry_has(pre.descriptors@[i].char_handle));
                } else {
                    let j = i - descn;
                    assert(descriptor_record_matches(post.descriptors@[descn + j],
                        plan_views[j], attr_handle));
                }
            }
        }
        assert(post.descriptors_unique()) by {
            assert forall|a: int, b: int| 0 <= a < b < post.descriptors@.len()
                implies !(#[trigger] post.descriptors@[a].char_handle
                == #[trigger] post.descriptors@[b].char_handle
                && post.descriptors@[a].uuid == post.descriptors@[b].uuid) by {
                if b < descn {
                    assert(!(pre.descriptors@[a].char_handle
                        == pre.descriptors@[b].char_handle
                        && pre.descriptors@[a].uuid == pre.descriptors@[b].uuid));
                } else if a < descn {
                    let jb = b - descn;
                    assert(descriptor_record_matches(post.descriptors@[descn + jb],
                        plan_views[jb], attr_handle));
                    assert(pre.registry_has(pre.descriptors@[a].char_handle));
                    if post.descriptors@[a].char_handle == attr_handle {
                        assert(pre.registry_has(attr_handle));
                    }
                } else {
                    let ja = a - descn;
                    let jb = b - descn;
                    assert(descriptor_record_matches(post.descriptors@[descn + ja],
                        plan_views[ja], attr_handle));
                    assert(descriptor_record_matches(post.descriptors@[descn + jb],
                        plan_views[jb], attr_handle));
                    assert(plan_views[ja].uuid != plan_views[jb].uuid);
                }
            }
        }
        assert(post.notify_has_cccd()) by {
            assert forall|i: int| 0 <= i < post.characteristics@.len() implies ((
            #[trigger] post.characteristics@[i].config.enable_notify)
                ==> post.char_has_descriptor(
                post.characteristics@[i].handle,
                BtUuid::Uuid16(CCCD_UUID),
            )) by {
                if i < pre.characteristics@.len() {
                    assert(post.characteristics@[i] == pre.characteristics@[i]);
                    if pre.characteristics@[i].config.enable_notify {
                        assert(pre.char_has_descriptor(pre.characteristics@[i].handle,
                            BtUuid::Uuid16(CCCD_UUID)));
                        let w = choose|w: int| 0 <= w < pre.descriptors@.len()
                            && #[trigger] pre.descriptors@[w].char_handle
                                == pre.characteristics@[i].handle
                            && pre.descriptors@[w].uuid == BtUuid::Uuid16(CCCD_UUID);
                        assert(post.descriptors@[w].char_handle
                            == post.characteristics@[i].handle);
                        assert(post.descriptors@[w].uuid == BtUuid::Uuid16(CCCD_UUID));
                    }
                } else {
                    if config.enable_notify {
                        assert(descriptor_record_matches(post.descriptors@[descn + 0],
                            plan_views[0], attr_handle));
                        assert(post.descriptors@[descn].uuid == BtUuid::Uuid16(CCCD_UUID));
                        assert(post.descriptors@[descn].char_handle == attr_handle);
                    }
                }
            }
        }
        assert(post.buffers_unique()) by {
            assert forall|a: int, b: int| 0 <= a < b < post.write_buffers@.len()
                implies #[trigger] post.write_buffers@[a].trans_id
                != #[trigger] post.write_buffers@[b].trans_id by {
                assert(pre.write_buffers@[a].trans_id != pre.write_buffers@[b].trans_id);
            }
        }
    }
}


impl GattServer {
    /// The index of the descriptor of a characteristic with a UUID.
    pub open spec fn descr_index(self, char_handle: Handle, uuid: BtUuid) -> int {
        choose|i: int| 0 <= i < self.descriptors@.len()
            && #[trigger] self.descriptors@[i].char_handle == char_handle
            && self.descriptors@[i].uuid == uuid
    }

    /// In a well-formed descriptor set a known index is the index the pair
    /// resolves to.
    pub proof fn lemma_descr_at(self, char_handle: Handle, uuid: BtUuid, i: int)
        requires
            self.descriptors_unique(),
            0 <= i < self.descriptors@.len(),
            self.descriptors@[i].char_handle == char_handle,
            self.descriptors@[i].uuid == uuid,
        ensures
            self.char_has_descriptor(char_handle, uuid),
            self.descr_index(char_handle, uuid) == i,
    {
        assert(self.char_has_descriptor(char_handle, uuid));
        let j = self.descr_index(char_handle, uuid);
        if i < j {
            assert(!(self.descriptors@[i].char_handle == self.descriptors@[j].char_handle
                && self.descriptors@[i].uuid == self.descriptors@[j].uuid));
        } else if j < i {
            assert(!(self.descriptors@[j].char_handle == self.descriptors@[i].char_handle
                && self.descriptors@[j].uuid == self.descriptors@[i].uuid));
        }
    }

    /// Find the index of a characteristic's descriptor by UUID.
    fn find_descr(&self, char_handle: Handle, uuid: BtUuid) -> (r: Option<usize>)
        ensures
            match r {
                Some(i) => i < self.descriptors@.len()
                    && self.descriptors@[i as int].char_handle == char_handle
                    && self.descriptors@[i as int].uuid == uuid,
                None => !self.char_has_descriptor(char_handle, uuid),
            },
    {
        let n = self.descriptors.len();
        let mut i: usize = 0;
        while i < n
            invariant
                n == self.descriptors@.len(),
                i <= n,
                forall|j: int| 0 <= j < i
                    ==> !(#[trigger] self.descriptors@[j].char_handle == char_handle
                        && self.descriptors@[j].uuid == uuid),
            decreases n - i,
        {
            if self.descriptors[i].char_handle == char_handle
                && self.descriptors[i].uuid == uuid {
                return Some(i);
            }
            i = i + 1;
        }
        None
    }

    /// Begin registering a descriptor of a characteristic: install the
    /// waiter for the reply and hand back the host call.  The descriptor
    /// must be attached and awaiting registration.
    pub fn add_descriptor_prepare(&mut self, char_handle: Handle, uuid: BtUuid) -> (r:
        Result<HostCall, Error>)
        requires
            old(self).wf(),
        ensures
            final(self).wf(),
            final(self).apps == old(self).apps,
            final(self).services == old(self).services,
            final(self).characteristics == old(self).characteristics,
            final(self).descriptors == old(self).descriptors,
            final(self).connections == old(self).connections,
            final(self).registry == old(self).registry,
            final(self).write_buffers == old(self).write_buffers,
            r is Err ==> final(self).router == old(self).router,
            !old(self).has_char(char_handle)
                ==> r == Err::<HostCall, Error>(Error::UnknownHandle(char_handle)),
            old(self).has_char(char_handle)
                && !old(self).char_has_descriptor(char_handle, uuid)
                ==> r == Err::<HostCall, Error>(Error::UnknownDescriptor),
            old(self).has_char(char_handle)
                && old(self).char_has_descriptor(char_handle, uuid)
                && old(self).descriptors@[old(self).descr_index(char_handle, uuid)].handle
                    is Some
                ==> r == Err::<HostCall, Error>(Error::HandleAlreadySet),
            old(self).has_char(char_handle)
                && old(self).char_has_descriptor(char_handle, uuid)
                && old(self).descriptors@[old(self).descr_index(char_handle, uuid)].handle
                    is None ==> {
                let rec = old(self).descriptors@[old(self).descr_index(char_handle, uuid)];
                &&& r == Ok::<HostCall, Error>(HostCall::AddDescriptor {
                    service_handle: old(self).characteristics@[old(self).char_index(
                        char_handle,
                    )].service_handle,
                    declaration: (crate::gatt::GattDescriptor {
                        uuid,
                        permissions: (crate::gatt::AttrPermissions {
                            read: rec.readable,
                            write: rec.writable,
                        }),
                    }),
                })
                &&& final(self).router.slot(GattsEventKind::DescriptorAdded)
                    == Waiter::<GattsEventMessage>::Correlated(None)
                &&& forall|k2: GattsEventKind| k2 != GattsEventKind::DescriptorAdded
                    ==> final(self).router.slot(k2) == old(self).router.slot(k2)
            },
    {
        let char_i = match self.find_char(char_handle) {
            Some(i) => i,
            None => {
                return Err(Error::UnknownHandle(char_handle));
            },
        };
        proof {
            self.lemma_char_at(char_handle, char_i as int);
        }
        let descr_i = match self.find_descr(char_handle, uuid) {
            Some(i) => i,
            None => {
                return Err(Error::UnknownDescriptor);
            },
        };
        proof {
            self.lemma_descr_at(char_handle, uuid, descr_i as int);
        }
        if self.descriptors[descr_i].handle.is_some() {
            return Err(Error::HandleAlreadySet);
        }
        let service_handle = self.characteristics[char_i].service_handle;
        let declaration = crate::gatt::GattDescriptor {
            uuid,
            permissions: crate::gatt::AttrPermissions {
                read: self.descriptors[descr_i].readable,
                write: self.descriptors[descr_i].writable,
            },
        };
        self.install_waiter(GattsEventKind::DescriptorAdded);
        Ok(HostCall::AddDescriptor { service_handle, declaration })
    }

    /// In a well-formed characteristic set a known index is the index the
    /// handle resolves to.
    pub proof fn lemma_char_at(self, h: Handle, i: int)
        requires
            self.characteristics_unique(),
            0 <= i < self.characteristics@.len(),
            self.characteristics@[i].handle == h,
        ensures
            self.has_char(h),
            self.char_index(h) == i,
    {
        assert(self.has_char(h));
        let j = self.char_index(h);
        if i < j {
            assert(self.characteristics@[i].handle != self.characteristics@[j].handle);
        } else if j < i {
            assert(self.characteristics@[j].handle != self.characteristics@[i].handle);
        }
    }

    /// Finish registering a descriptor.  The waiter is dismantled on every
    /// path.  The reply must arrive on the requesting interface, name the
    /// descriptor's UUID and the characteristic's service, and carry a
    /// success status; then the descriptor's handle is recorded and its
    /// registry entry is created with the initial value bytes.  Nothing is
    /// retained on failure.
    pub fn add_descriptor_complete(
        &mut self,
        interface: GattInterface,
        char_handle: Handle,
        uuid: BtUuid,
    ) -> (r: Result<Handle, Error>)
        requires
            old(self).wf(),
        ensures
            final(self).wf(),
            final(self).apps == old(self).apps,
            final(self).services == old(self).services,
            final(self).characteristics == old(self).characteristics,
            final(self).connections == old(self).connections,
            final(self).write_buffers == old(self).write_buffers,
            !final(self).router.live(GattsEventKind::DescriptorAdded),
            forall|k2: GattsEventKind| k2 != GattsEventKind::DescriptorAdded
                ==> final(self).router.slot(k2) == old(self).router.slot(k2),
            r is Err ==> final(self).descriptors == old(self).descriptors
                && final(self).registry == old(self).registry,
            r matches Ok(h) ==> {
                let idx = old(self).descr_index(char_handle, uuid);
                let rec = old(self).descriptors@[idx];
                &&& old(self).char_has_descriptor(char_handle, uuid)
                &&& rec.handle is None
                &&& !old(self).registry_has(h)
                &&& final(self).descriptors@ == old(self).descriptors@.update(
                    idx,
                    (DescriptorRecord { handle: Some(h), ..rec }),
                )
                &&& final(self).registry@.len() == old(self).registry@.len() + 1
                &&& forall|k: int| 0 <= k < old(self).registry@.len()
                    ==> #[trigger] final(self).registry@[k] == old(self).registry@[k]
                &&& final(self).registry@[old(self).registry@.len() as int].handle == h
                &&& final(self).registry@[old(self).registry@.len() as int].codec
                    == rec.codec
                &&& final(self).registry@[old(self).registry@.len() as int].value@
                    == rec.initial@
                &&& final(self).registry@[old(self).registry@.len() as int].pending is None
            },
            match old(self).router.slot(GattsEventKind::DescriptorAdded) {
                Waiter::Correlated(Some(m)) => match m.1 {
                    GattsEvent::DescriptorAdded {
                        status, attr_handle, service_handle: sh, descr_uuid,
                    } => {
                        if m.0 != interface || descr_uuid != uuid {
                            r == Err::<Handle, Error>(Error::IdentityMismatch)
                        } else if status != GattStatus::Success {
                            r == Err::<Handle, Error>(Error::StatusNotOk(status))
                        } else if !old(self).has_char(char_handle) {
                            r == Err::<Handle, Error>(Error::UnknownHandle(char_handle))
                        } else if !old(self).char_has_descriptor(char_handle, uuid) {
                            r == Err::<Handle, Error>(Error::UnknownDescriptor)
                        } else if sh != old(self).characteristics@[old(self).char_index(
                            char_handle,
                        )].service_handle {
                            r == Err::<Handle, Error>(Error::IdentityMismatch)
                        } else if old(self).descriptors@[old(self).descr_index(
                            char_handle,
                            uuid,
                        )].handle is Some {
                            r == Err::<Handle, Error>(Error::HandleAlreadySet)
                        } else if old(self).registry_has(attr_handle) {
                            r == Err::<Handle, Error>(Error::DuplicateHandle(attr_handle))
                        } else {
                            r == Ok::<Handle, Error>(attr_handle)
                        }
                    },
                    _ => r == Err::<Handle, Error>(Error::UnexpectedEvent),
                },
                _ => r == Err::<Handle, Error>(Error::Timeout),
            },
    {
        let ghost pre = *old(self);
        let taken = self.take_waiter(GattsEventKind::DescriptorAdded);
        let msg = match taken {
            Some(m) => m,
            None => {
                return Err(Error::Timeout);
            },
        };
        let GattsEventMessage(got_interface, event) = msg;
        match event {
            GattsEvent::DescriptorAdded {
                status, attr_handle, service_handle: sh, descr_uuid,
            } => {
                if got_interface != interface || !(descr_uuid == uuid) {
                    return Err(Error::IdentityMismatch);
                }
                if status != GattStatus::Success {
                    return Err(Error::StatusNotOk(status));
                }
                let char_i = match self.find_char(char_handle) {
                    Some(i) => i,
                    None => {
                        proof {
                            if pre.has_char(char_handle) {
                                let w = choose|w: int| 0 <= w < pre.characteristics@.len()
                                    && #[trigger] pre.characteristics@[w].handle
                                        == char_handle;
                                assert(self.characteristics@[w].handle == char_handle);
                            }
                        }
                        return Err(Error::UnknownHandle(char_handle));
                    },
                };
                proof {
                    assert(pre.characteristics@[char_i as int].handle == char_handle);
                    pre.lemma_char_at(char_handle, char_i as int);
                }
                let descr_i = match self.find_descr(char_handle, uuid) {
                    Some(i) => i,
                    None => {
                        proof {
                            if pre.char_has_descriptor(char_handle, uuid) {
                                let w = choose|w: int| 0 <= w < pre.descriptors@.len()
                                    && #[trigger] pre.descriptors@[w].char_handle
                                        == char_handle
                                    && pre.descriptors@[w].uuid == uuid;
                                assert(self.descriptors@[w].char_handle == char_handle);
                                assert(self.descriptors@[w].uuid == uuid);
                            }
                        }
                        return Err(Error::UnknownDescriptor);
                    },
                };
                proof {
                    pre.lemma_descr_at(char_handle, uuid, descr_i as int);
                }
                if sh != self.characteristics[char_i].service_handle {
                    return Err(Error::IdentityMismatch);
                }
                if self.descriptors[descr_i].handle.is_some() {
                    return Err(Error::HandleAlreadySet);
                }
                match self.find_attr(attr_handle) {
                    Some(i) => {
                        proof {
                            assert(pre.registry@[i as int].handle == attr_handle);
                            assert(pre.registry_has(attr_handle));
                        }
                        return Err(Error::DuplicateHandle(attr_handle));
                    },
                    None => {
                        proof {
                            Self::lemma_same_registry(pre, *self);
                        }
                    },
                }
                let ghost mid = *self;
                let mut taken_rec = DescriptorRecord {
                    char_handle,
                    uuid,
                    readable: false,
                    writable: false,
                    codec: CodecKind::Bytes,
                    initial: Vec::new(),
                    handle: None,
                };
                self.descriptors.set_and_swap(descr_i, &mut taken_rec);
                let entry_value = crate::codec::copy_bytes(&taken_rec.initial);
                let entry_codec = taken_rec.codec;
                taken_rec.handle = Some(attr_handle);
                self.descriptors.set(descr_i, taken_rec);
                self.registry.push(AttrEntry {
                    handle: attr_handle,
                    codec: entry_codec,
                    value: entry_value,
                    pending: None,
                });
                proof {
                    Self::lemma_descr_commit_wf(pre, *self, char_handle, uuid,
                        descr_i as int, attr_handle);
                    assert(final(self).descriptors@ =~= pre.descriptors@.update(
                        pre.descr_index(char_handle, uuid),
                        (DescriptorRecord {
                            handle: Some(attr_handle),
                            ..pre.descriptors@[pre.descr_index(char_handle, uuid)]
                        }),
                    ));
                }
                Ok(attr_handle)
            },
            _ => Err(Error::UnexpectedEvent),
        }
    }

    /// Committing a descriptor keeps the server well-formed: its handle was
    /// fresh and everything else is untouched.
    proof fn lemma_descr_commit_wf(
        pre: GattServer,
        post: GattServer,
        char_handle: Handle,
        uuid: BtUuid,
        di: int,
        attr_handle: Handle,
    )
        requires
            pre.wf(),
            !pre.registry_has(attr_handle),
            post.apps == pre.apps,
            post.services == pre.services,
            post.characteristics == pre.characteristics,
            post.connections == pre.connections,
            post.write_buffers == pre.write_buffers,
            post.router.wf(),
            0 <= di < pre.descriptors@.len(),
            pre.descriptors@[di].char_handle == char_handle,
            pre.descriptors@[di].uuid == uuid,
            post.descriptors@.len() == pre.descriptors@.len(),
            forall|k: int| 0 <= k < pre.descriptors@.len() && k != di
                ==> #[trigger] post.descriptors@[k] == pre.descriptors@[k],
            post.descriptors@[di].char_handle == char_handle,
            post.descriptors@[di].uuid == uuid,
            post.descriptors@[di].handle == Some(attr_handle),
            post.registry@.len() == pre.registry@.len() + 1,
            forall|k: int| 0 <= k < pre.registry@.len()
                ==> #[trigger] post.registry@[k] == pre.registry@[k],
            post.registry@[pre.registry@.len() as int].handle == attr_handle,
        ensures
            post.wf(),
    {
        let regn = pre.registry@.len() as int;
        assert(post.registry_unique()) by {
            assert forall|i: int, j: int| 0 <= i < j < post.registry@.len()
                implies #[trigger] post.registry@[i].handle
                != #[trigger] post.registry@[j].handle by {
                if j < regn {
                    assert(pre.registry@[i].handle != pre.registry@[j].handle);
                } else {
                    assert(pre.registry@[i].handle != attr_handle);
                }
            }
        }
        assert forall|h: Handle| pre.registry_has(h) implies post.registry_has(h) by {
            let w = choose|w: int| 0 <= w < pre.registry@.len()
                && #[trigger] pre.registry@[w].handle == h;
            assert(post.registry@[w].handle == h);
        }
        assert(post.registry_has(attr_handle)) by {
            assert(post.registry@[regn].handle == attr_handle);
        }
        assert(post.apps_unique()) by {
            assert forall|a: int, b: int| 0 <= a < b < post.apps@.len()
                implies #[trigger] post.apps@[a].interface
                != #[trigger] post.apps@[b].interface by {
                assert(pre.apps@[a].interface != pre.apps@[b].interface);
            }
        }
        assert(post.connections_unique()) by {
            assert forall|a: int, b: int| 0 <= a < b < post.connections@.len()
                implies #[trigger] post.connections@[a].id
                != #[trigger] post.connections@[b].id by {
                assert(pre.connections@[a].id != pre.connections@[b].id);
            }
        }
        assert(post.connections_owned()) by {
            assert forall|k: int| 0 <= k < post.connections@.len() implies post.has_app(
                #[trigger] post.connections@[k].interface,
            ) by {
                assert(pre.has_app(pre.connections@[k].interface));
                let w = choose|w: int| 0 <= w < pre.apps@.len()
                    && #[trigger] pre.apps@[w].interface == pre.connections@[k].interface;
                assert(post.apps@[w].interface == post.connections@[k].interface);
            }
        }
        assert(post.services_unique()) by {
            assert forall|a: int, b: int| 0 <= a < b < post.services@.len()
                implies #[trigger] post.services@[a].handle
                != #[trigger] post.services@[b].handle by {
                assert(pre.services@[a].handle != pre.services@[b].handle);
            }
            assert forall|a: int, b: int| 0 <= a < b < post.services@.len()
                implies !(#[trigger] post.services@[a].interface
                == #[trigger] post.services@[b].interface
                && post.services@[a].id == post.services@[b].id) by {
                assert(!(pre.services@[a].interface == pre.services@[b].interface
                    && pre.services@[a].id == pre.services@[b].id));
            }
        }
        assert(post.characteristics_unique()) by {
            assert forall|a: int, b: int| 0 <= a < b < post.characteristics@.len()
                implies #[trigger] post.characteristics@[a].handle
                != #[trigger] post.characteristics@[b].handle by {
                assert(pre.characteristics@[a].handle != pre.characteristics@[b].handle);
            }
        }
        assert(post.characteristics_registered()) by {
            assert forall|i: int| 0 <= i < post.characteristics@.len()
                implies post.registry_has(#[trigger] post.characteristics@[i].handle) by {
                assert(pre.registry_has(pre.characteristics@[i].handle));
            }
        }
        assert(post.descriptors_registered()) by {
            assert forall|i: int| 0 <= i < post.descriptors@.len() implies ((
            #[trigger] post.descriptors@[i].handle) matches Some(h)
                ==> post.registry_has(h)) by {
                if i == di {
                } else {
                    assert(post.descriptors@[i] == pre.descriptors@[i]);
                    if pre.descriptors@[i].handle is Some {
                        assert(pre.registry_has(pre.descriptors@[i].handle.unwrap()));
                    }
                }
            }
        }
        assert(post.descriptors_attached()) by {
            assert forall|i: int| 0 <= i < post.descriptors@.len()
                implies post.registry_has(#[trigger] post.descriptors@[i].char_handle) by {
                if i == di {
                    assert(pre.registry_has(pre.descriptors@[di].char_handle));
                } else {
                    assert(post.descriptors@[i] == pre.descriptors@[i]);
                    assert(pre.registry_has(pre.descriptors@[i].char_handle));
                }
            }
        }
        assert(post.descriptors_unique()) by {
            assert forall|a: int, b: int| 0 <= a < b < post.descriptors@.len()
                implies !(#[trigger] post.descriptors@[a].char_handle
                == #[trigger] post.descriptors@[b].char_handle
                && post.descriptors@[a].uuid == post.descriptors@[b].uuid) by {
                assert(post.descriptors@[a].char_handle == pre.descriptors@[a].char_handle
                    && post.descriptors@[a].uuid == pre.descriptors@[a].uuid);
                assert(post.descriptors@[b].char_handle == pre.descriptors@[b].char_handle
                    && post.descriptors@[b].uuid == pre.descriptors@[b].uuid);
                assert(!(pre.descriptors@[a].char_handle == pre.descriptors@[b].char_handle
                    && pre.descriptors@[a].uuid == pre.descriptors@[b].uuid));
            }
        }
        assert(post.notify_has_cccd()) by {
            assert forall|i: int| 0 <= i < post.characteristics@.len() implies ((
            #[trigger] post.characteristics@[i].config.enable_notify)
                ==> post.char_has_descriptor(
                post.characteristics@[i].handle,
                BtUuid::Uuid16(CCCD_UUID),
            )) by {
                if post.characteristics@[i].config.enable_notify {
                    assert(pre.char_has_descriptor(pre.characteristics@[i].handle,
                        BtUuid::Uuid16(CCCD_UUID)));
                    let w = choose|w: int| 0 <= w < pre.descriptors@.len()
                        && #[trigger] pre.descriptors@[w].char_handle
                            == pre.characteristics@[i].handle
                        && pre.descriptors@[w].uuid == BtUuid::Uuid16(CCCD_UUID);
                    assert(post.descriptors@[w].char_handle
                        == post.characteristics@[i].handle);
                    assert(post.descriptors@[w].uuid == BtUuid::Uuid16(CCCD_UUID));
                }
            }
        }
        assert(post.buffers_unique()) by {
            assert forall|a: int, b: int| 0 <= a < b < post.write_buffers@.len()
                implies #[trigger] post.write_buffers@[a].trans_id
                != #[trigger] post.write_buffers@[b].trans_id by {
                assert(pre.write_buffers@[a].trans_id != pre.write_buffers@[b].trans_id);
            }
        }
    }
}


/// One indication to send: the payload is the attribute value, truncated to
/// the connection's MTU when it does not fit (with a warning).
#[derive(Debug, Clone, PartialEq)]
pub struct IndicationItem {
    pub conn_id: ConnectionId,
    pub handle: Handle,
    pub payload: Vec<u8>,
    pub truncated: bool,
}

/// The indications an update triggers: one per connection of the owning
/// application with a negotiated MTU; connections still without one are
/// skipped and reported.
#[derive(Debug, Clone, PartialEq)]
pub struct IndicationPlan {
    pub items: Vec<IndicationItem>,
    pub skipped: Vec<ConnectionId>,
}

/// The payload of an indication: the value, cut at the MTU.
pub open spec fn spec_indication_payload(bytes: Seq<u8>, mtu: u16) -> Seq<u8> {
    if bytes.len() <= mtu {
        bytes
    } else {
        bytes.take(mtu as int)
    }
}

/// Every planned item indicates the updated attribute to a connection of
/// the owning application, its payload cut at that connection's MTU.
pub open spec fn spec_items_sound(
    conns: Seq<ConnectionInner>,
    interface: GattInterface,
    char_handle: Handle,
    bytes: Seq<u8>,
    items: Seq<IndicationItem>,
) -> bool {
    forall|k: int| 0 <= k < items.len()
        ==> (#[trigger] items[k]).handle == char_handle
            && exists|j: int| 0 <= j < conns.len()
                && #[trigger] conns[j].interface == interface
                && conns[j].id == items[k].conn_id
                && (conns[j].mtu matches Some(m)
                    && items[k].payload@ == spec_indication_payload(bytes, m)
                    && items[k].truncated == (bytes.len() > m))
}

/// Every skipped entry names a connection of the owning application that
/// has no negotiated MTU yet.
pub open spec fn spec_skipped_sound(
    conns: Seq<ConnectionInner>,
    interface: GattInterface,
    skipped: Seq<ConnectionId>,
) -> bool {
    forall|k: int| 0 <= k < skipped.len()
        ==> exists|j: int| 0 <= j < conns.len()
            && #[trigger] conns[j].interface == interface
            && conns[j].id == #[trigger] skipped[k]
            && conns[j].mtu is None
}

/// Every connection of the owning application among the first `upto` is
/// either planned or skipped.
pub open spec fn spec_covered(
    conns: Seq<ConnectionInner>,
    interface: GattInterface,
    upto: int,
    items: Seq<IndicationItem>,
    skipped: Seq<ConnectionId>,
) -> bool {
    forall|j: int| 0 <= j < upto && #[trigger] conns[j].interface == interface
        ==> (conns[j].mtu is Some ==> exists|k: int| 0 <= k < items.len()
            && (#[trigger] items[k]).conn_id == conns[j].id)
            && (conns[j].mtu is None ==> exists|k: int| 0 <= k < skipped.len()
                && #[trigger] skipped[k] == conns[j].id)
}

/// Whether these items and skip entries are exactly the round of
/// indications an update triggers over these connections.
pub open spec fn spec_plan_parts_match(
    conns: Seq<ConnectionInner>,
    interface: GattInterface,
    char_handle: Handle,
    bytes: Seq<u8>,
    items: Seq<IndicationItem>,
    skipped: Seq<ConnectionId>,
) -> bool {
    &&& spec_items_sound(conns, interface, char_handle, bytes, items)
    &&& spec_skipped_sound(conns, interface, skipped)
    &&& spec_covered(conns, interface, conns.len() as int, items, skipped)
}

/// Whether a plan is exactly the round of indications an update triggers
/// over these connections: every planned item indicates the updated
/// attribute to a connection of the owning application, cut at its MTU;
/// every skipped entry names a connection still without an MTU; and every
/// connection of the application appears in one of the two.
pub open spec fn spec_plan_matches(
    conns: Seq<ConnectionInner>,
    interface: GattInterface,
    char_handle: Handle,
    bytes: Seq<u8>,
    plan: IndicationPlan,
) -> bool {
    spec_plan_parts_match(conns, interface, char_handle, bytes, plan.items@, plan.skipped@)
}

/// Appending an indication for connection `j0` keeps the plan sound and
/// extends its coverage by one connection.
proof fn lemma_plan_push_item(
    conns: Seq<ConnectionInner>,
    interface: GattInterface,
    char_handle: Handle,
    bytes: Seq<u8>,
    items_pre: Seq<IndicationItem>,
    items_post: Seq<IndicationItem>,
    skipped: Seq<ConnectionId>,
    j0: int,
    m: u16,
)
    requires
        spec_items_sound(conns, interface, char_handle, bytes, items_pre),
        spec_covered(conns, interface, j0, items_pre, skipped),
        0 <= j0 < conns.len(),
        conns[j0].interface == interface,
        conns[j0].mtu == Some(m),
        items_post.len() == items_pre.len() + 1,
        forall|k: int| 0 <= k < items_pre.len()
            ==> #[trigger] items_post[k] == items_pre[k],
        items_post.last().handle == char_handle,
        items_post.last().conn_id == conns[j0].id,
        items_post.last().payload@ == spec_indication_payload(bytes, m),
        items_post.last().truncated == (bytes.len() > m),
    ensures
        spec_items_sound(conns, interface, char_handle, bytes, items_post),
        spec_covered(conns, interface, j0 + 1, items_post, skipped),
{
    let n0 = items_pre.len() as int;
    assert(spec_items_sound(conns, interface, char_handle, bytes, items_post)) by {
        assert forall|k: int| 0 <= k < items_post.len()
            implies (#[trigger] items_post[k]).handle == char_handle
            && exists|j: int| 0 <= j < conns.len()
                && #[trigger] conns[j].interface == interface
                && conns[j].id == items_post[k].conn_id
                && (conns[j].mtu matches Some(mm)
                    && items_post[k].payload@ == spec_indication_payload(bytes, mm)
                    && items_post[k].truncated == (bytes.len() > mm)) by {
            if k < n0 {
                assert(items_post[k] == items_pre[k]);
                let j = choose|j: int| 0 <= j < conns.len()
                    && #[trigger] conns[j].interface == interface
                    && conns[j].id == items_pre[k].conn_id
                    && (conns[j].mtu matches Some(mm)
                        && items_pre[k].payload@ == spec_indication_payload(bytes, mm)
                        && items_pre[k].truncated == (bytes.len() > mm));
                assert(conns[j].id == items_post[k].conn_id);
            } else {
                assert(items_post[k] == items_post.last());
                assert(conns[j0].id == items_post[k].conn_id);
            }
        }
    }
    assert(spec_covered(conns, interface, j0 + 1, items_post, skipped)) by {
        assert forall|j: int| 0 <= j < j0 + 1 && #[trigger] conns[j].interface == interface
            implies (conns[j].mtu is Some ==> exists|k: int| 0 <= k < items_post.len()
                && (#[trigger] items_post[k]).conn_id == conns[j].id)
            && (conns[j].mtu is None ==> exists|k: int| 0 <= k < skipped.len()
                && #[trigger] skipped[k] == conns[j].id) by {
            if j == j0 {
                assert(items_post[n0].conn_id == conns[j].id);
            } else if conns[j].mtu is Some {
                let k = choose|k: int| 0 <= k < items_pre.len()
                    && (#[trigger] items_pre[k]).conn_id == conns[j].id;
                assert(items_post[k].conn_id == conns[j].id);
            }
        }
    }
}

/// Recording a skipped connection `j0` keeps the plan sound and extends
/// its coverage by one connection.
proof fn lemma_plan_push_skip(
    conns: Seq<ConnectionInner>,
    interface: GattInterface,
    items: Seq<IndicationItem>,
    skipped_pre: Seq<ConnectionId>,
    skipped_post: Seq<ConnectionId>,
    j0: int,
)
    requires
        spec_skipped_sound(conns, interface, skipped_pre),
        spec_covered(conns, interface, j0, items, skipped_pre),
        0 <= j0 < conns.len(),
        conns[j0].interface == interface,
        conns[j0].mtu is None,
        skipped_post == skipped_pre.push(conns[j0].id),
    ensures
        spec_skipped_sound(conns, interface, skipped_post),
        spec_covered(conns, interface, j0 + 1, items, skipped_post),
{
    let n0 = skipped_pre.len() as int;
    assert(spec_skipped_sound(conns, interface, skipped_post)) by {
        assert forall|k: int| 0 <= k < skipped_post.len()
            implies exists|j: int| 0 <= j < conns.len()
            && #[trigger] conns[j].interface == interface
            && conns[j].id == #[trigger] skipped_post[k]
            && conns[j].mtu is None by {
            if k < n0 {
                assert(skipped_post[k] == skipped_pre[k]);
                let j = choose|j: int| 0 <= j < conns.len()
                    && #[trigger] conns[j].interface == interface
                    && conns[j].id == skipped_pre[k]
                    && conns[j].mtu is None;
                assert(conns[j].id == skipped_post[k]);
            } else {
                assert(skipped_post[k] == conns[j0].id);
            }
        }
    }
    assert(spec_covered(conns, interface, j0 + 1, items, skipped_post)) by {
        assert forall|j: int| 0 <= j < j0 + 1 && #[trigger] conns[j].interface == interface
            implies (conns[j].mtu is Some ==> exists|k: int| 0 <= k < items.len()
                && (#[trigger] items[k]).conn_id == conns[j].id)
            && (conns[j].mtu is None ==> exists|k: int| 0 <= k < skipped_post.len()
                && #[trigger] skipped_post[k] == conns[j].id) by {
            if j == j0 {
                assert(skipped_post[n0] == conns[j].id);
            } else if conns[j].mtu is None {
                let k = choose|k: int| 0 <= k < skipped_pre.len()
                    && #[trigger] skipped_pre[k] == conns[j].id;
                assert(skipped_post[k] == conns[j].id);
            }
        }
    }
}

/// The indications one value update triggers, over the connections of the
/// owning application: one per connection with a negotiated MTU, the
/// payload cut at the MTU (truncation is flagged for the warning);
/// connections still without an MTU are skipped and listed.
pub fn plan_indications(
    conns: &Vec<ConnectionInner>,
    interface: GattInterface,
    char_handle: Handle,
    bytes: &Vec<u8>,
) -> (plan: IndicationPlan)
    ensures
        spec_plan_matches(conns@, interface, char_handle, bytes@, plan),
{
    let mut items: Vec<IndicationItem> = Vec::new();
    let mut skipped: Vec<ConnectionId> = Vec::new();
    let n = conns.len();
    let mut j: usize = 0;
    while j < n
        invariant
            n == conns@.len(),
            j <= n,
            spec_items_sound(conns@, interface, char_handle, bytes@, items@),
            spec_skipped_sound(conns@, interface, skipped@),
            spec_covered(conns@, interface, j as int, items@, skipped@),
        decreases n - j,
    {
        let c = conns[j];
        if c.interface == interface {
            match c.mtu {
                Some(m) => {
                    let end: usize = if bytes.len() <= m as usize {
                        bytes.len()
                    } else {
                        m as usize
                    };
                    let mut payload: Vec<u8> = Vec::new();
                    let mut k: usize = 0;
                    while k < end
                        invariant
                            k <= end,
                            end <= bytes@.len(),
                            payload@ == bytes@.take(k as int),
                        decreases end - k,
                    {
                        payload.push(bytes[k]);
                        proof {
                            assert(payload@ =~= bytes@.take(k as int + 1));
                        }
                        k = k + 1;
                    }
                    proof {
                        assert(payload@ =~= spec_indication_payload(bytes@, m));
                    }
                    let ghost items_pre = items@;
                    items.push(IndicationItem {
                        conn_id: c.id,
                        handle: char_handle,
                        payload,
                        truncated: bytes.len() > m as usize,
                    });
                    proof {
                        lemma_plan_push_item(conns@, interface, char_handle, bytes@,
                            items_pre, items@, skipped@, j as int, m);
                    }
                },
                None => {
                    let ghost sk_pre = skipped@;
                    skipped.push(c.id);
                    proof {
                        assert(skipped@ =~= sk_pre.push(conns@[j as int].id));
                        lemma_plan_push_skip(conns@, interface, items@, sk_pre, skipped@,
                            j as int);
                    }
                },
            }
        } else {
            proof {
                assert(spec_covered(conns@, interface, j as int + 1, items@, skipped@))
                    by {
                    assert forall|jj: int| 0 <= jj < j + 1
                        && #[trigger] conns@[jj].interface == interface
                        implies (conns@[jj].mtu is Some ==> exists|k: int|
                            0 <= k < items@.len()
                                && (#[trigger] items@[k]).conn_id == conns@[jj].id)
                        && (conns@[jj].mtu is None ==> exists|k: int|
                            0 <= k < skipped@.len()
                                && #[trigger] skipped@[k] == conns@[jj].id) by {
                        assert(jj != j as int);
                    }
                }
            }
        }
        j = j + 1;
    }
    let ghost items_view = items@;
    let ghost skipped_view = skipped@;
    let plan = IndicationPlan { items, skipped };
    proof {
        assert(plan.items@ == items_view);
        assert(plan.skipped@ == skipped_view);
    }
    plan
}

impl GattServer {
    /// An application-originated value update: the bytes are validated by
    /// the attribute's codec, become its value, and an update notification
    /// is published — on every call, also when the value is unchanged.
    /// Then one indication is planned for every connection of the owning
    /// application: connections without a negotiated MTU are skipped (and
    /// listed), a payload larger than the MTU is truncated to it.
    pub fn update_value(
        &mut self,
        interface: GattInterface,
        char_handle: Handle,
        bytes: &Vec<u8>,
    ) -> (r: Result<IndicationPlan, Error>)
        requires
            old(self).wf(),
        ensures
            final(self).wf(),
            final(self).apps == old(self).apps,
            final(self).services == old(self).services,
            final(self).characteristics == old(self).characteristics,
            final(self).descriptors == old(self).descriptors,
            final(self).connections == old(self).connections,
            final(self).write_buffers == old(self).write_buffers,
            final(self).router == old(self).router,
            !old(self).registry_has(char_handle) ==> *final(self) == *old(self)
                && r == Err::<IndicationPlan, Error>(Error::UnknownHandle(char_handle)),
            old(self).registry_has(char_handle)
                && !codec_accepts(old(self).attr_at(char_handle).codec, bytes@)
                ==> *final(self) == *old(self)
                    && r == Err::<IndicationPlan, Error>(Error::CodecError),
            old(self).registry_has(char_handle)
                && codec_accepts(old(self).attr_at(char_handle).codec, bytes@) ==> {
                &&& final(self).registry@.len() == old(self).registry@.len()
                &&& forall|k: int| 0 <= k < old(self).registry@.len()
                    && k != old(self).attr_index(char_handle)
                    ==> #[trigger] final(self).registry@[k] == old(self).registry@[k]
                &&& final(self).attr_at(char_handle).handle == char_handle
                &&& final(self).attr_at(char_handle).codec
                    == old(self).attr_at(char_handle).codec
                &&& final(self).attr_at(char_handle).value@ == bytes@
                &&& (final(self).attr_at(char_handle).pending matches Some(u)
                    && u.previous@ == old(self).attr_at(char_handle).value@
                    && u.current@ == bytes@)
                &&& (!old(self).has_app(interface)
                    ==> r == Err::<IndicationPlan, Error>(Error::UnknownInterface(
                        interface,
                    )))
                &&& (old(self).has_app(interface) ==> (r matches Ok(plan)
                    && spec_plan_matches(old(self).connections@, interface, char_handle,
                        bytes@, plan)))
            },
    {
        let ghost pre = *old(self);
        let attr_i = match self.find_attr(char_handle) {
            Some(i) => i,
            None => {
                return Err(Error::UnknownHandle(char_handle));
            },
        };
        proof {
            self.lemma_attr_at(char_handle, attr_i as int);
        }
        match self.apply_to_attr(attr_i, crate::codec::copy_bytes(bytes)) {
            Ok(()) => {},
            Err(e) => {
                return Err(e);
            },
        }
        proof {
            self.lemma_attr_at(char_handle, attr_i as int);
        }
        if self.find_app(interface).is_none() {
            return Err(Error::UnknownInterface(interface));
        }
        Ok(plan_indications(&self.connections, interface, char_handle, bytes))
    }

    /// Install the waiter for the peer confirmations of a round of
    /// indications.
    pub fn confirm_prepare(&mut self)
        requires
            old(self).wf(),
        ensures
            final(self).wf(),
            final(self).apps == old(self).apps,
            final(self).services == old(self).services,
            final(self).characteristics == old(self).characteristics,
            final(self).descriptors == old(self).descriptors,
            final(self).connections == old(self).connections,
            final(self).registry == old(self).registry,
            final(self).write_buffers == old(self).write_buffers,
            final(self).router.slot(GattsEventKind::Confirm)
                == Waiter::<GattsEventMessage>::Correlated(None),
            forall|k2: GattsEventKind| k2 != GattsEventKind::Confirm
                ==> final(self).router.slot(k2) == old(self).router.slot(k2),
    {
        self.install_waiter(GattsEventKind::Confirm);
    }

    /// Await one peer's confirmation of an indication.  The confirmation
    /// must name the indicated connection and attribute and carry a success
    /// status.  The waiter stays installed (and empty) for the next peer.
    pub fn confirm_complete(&mut self, conn_id: ConnectionId, char_handle: Handle) -> (r:
        Result<(), Error>)
        requires
            old(self).wf(),
        ensures
            final(self).wf(),
            final(self).apps == old(self).apps,
            final(self).services == old(self).services,
            final(self).characteristics == old(self).characteristics,
            final(self).descriptors == old(self).descriptors,
            final(self).connections == old(self).connections,
            final(self).registry == old(self).registry,
            final(self).write_buffers == old(self).write_buffers,
            forall|k2: GattsEventKind| k2 != GattsEventKind::Confirm
                ==> final(self).router.slot(k2) == old(self).router.slot(k2),
            match old(self).router.slot(GattsEventKind::Confirm) {
                Waiter::Correlated(Some(m)) => final(self).router.slot(
                    GattsEventKind::Confirm,
                ) == Waiter::<GattsEventMessage>::Correlated(None) && match m.1 {
                    GattsEvent::Confirm { status, conn_id: c, handle, .. } => {
                        if c != conn_id || handle != char_handle {
                            r == Err::<(), Error>(Error::IdentityMismatch)
                        } else if status != GattStatus::Success {
                            r == Err::<(), Error>(Error::StatusNotOk(status))
                        } else {
                            r is Ok
                        }
                    },
                    _ => r == Err::<(), Error>(Error::UnexpectedEvent),
                },
                _ => r == Err::<(), Error>(Error::Timeout)
                    && final(self).router == old(self).router,
            },
    {
        let taken = self.router.take(GattsEventKind::Confirm);
        proof {
            let pre = *old(self);
            assert(self.buffers_unique()) by {
                assert forall|a: int, b: int| 0 <= a < b < self.write_buffers@.len()
                    implies #[trigger] self.write_buffers@[a].trans_id
                    != #[trigger] self.write_buffers@[b].trans_id by {
                    assert(pre.write_buffers@[a].trans_id != pre.write_buffers@[b].trans_id);
                }
            }
            Self::lemma_preserve_wf(pre, *self);
        }
        let msg = match taken {
            Some(m) => m,
            None => {
                return Err(Error::Timeout);
            },
        };
        match msg.1 {
            GattsEvent::Confirm { status, conn_id: c, handle, .. } => {
                if c != conn_id || handle != char_handle {
                    return Err(Error::IdentityMismatch);
                }
                if status != GattStatus::Success {
                    return Err(Error::StatusNotOk(status));
                }
                Ok(())
            },
            _ => Err(Error::UnexpectedEvent),
        }
    }

    /// Dismantle the confirmation waiter when a round of indications is
    /// done: no sender outlives the operation that installed it.
    pub fn confirm_finish(&mut self)
        requires
            old(self).wf(),
        ensures
            final(self).wf(),
            final(self).apps == old(self).apps,
            final(self).services == old(self).services,
            final(self).characteristics == old(self).characteristics,
            final(self).descriptors == old(self).descriptors,
            final(self).connections == old(self).connections,
            final(self).registry == old(self).registry,
            final(self).write_buffers == old(self).write_buffers,
            !final(self).router.live(GattsEventKind::Confirm),
            forall|k2: GattsEventKind| k2 != GattsEventKind::Confirm
                ==> final(self).router.slot(k2) == old(self).router.slot(k2),
    {
        self.router.vacate(GattsEventKind::Confirm);
        proof {
            let pre = *old(self);
            assert(self.buffers_unique()) by {
                assert forall|a: int, b: int| 0 <= a < b < self.write_buffers@.len()
                    implies #[trigger] self.write_buffers@[a].trans_id
                    != #[trigger] self.write_buffers@[b].trans_id by {
                    assert(pre.write_buffers@[a].trans_id != pre.write_buffers@[b].trans_id);
                }
            }
            Self::lemma_preserve_wf(pre, *self);
        }
    }

    /// A round of indications succeeds exactly when every attempted
    /// connection confirmed.
    pub fn indication_outcome(confirmed: usize, failed: usize) -> (r: Result<(), Error>)
        ensures
            r is Ok <==> failed == 0,
            r is Err ==> r == Err::<(), Error>(Error::IndicationFailed),
    {
        if failed == 0 {
            Ok(())
        } else {
            Err(Error::IndicationFailed)
        }
    }

    /// Install the waiter for the completion of a response send.
    pub fn send_response_prepare(&mut self)
        requires
            old(self).wf(),
        ensures
            final(self).wf(),
            final(self).apps == old(self).apps,
            final(self).services == old(self).services,
            final(self).characteristics == old(self).characteristics,
            final(self).descriptors == old(self).descriptors,
            final(self).connections == old(self).connections,
            final(self).registry == old(self).registry,
            final(self).write_buffers == old(self).write_buffers,
            final(self).router.slot(GattsEventKind::ResponseComplete)
                == Waiter::<GattsEventMessage>::Correlated(None),
            forall|k2: GattsEventKind| k2 != GattsEventKind::ResponseComplete
                ==> final(self).router.slot(k2) == old(self).router.slot(k2),
    {
        self.install_waiter(GattsEventKind::ResponseComplete);
    }

    /// Await the completion of a response send.  The completion must name
    /// the responded attribute and carry a success status.  The waiter is
    /// dismantled on every path.
    pub fn send_response_complete(&mut self, attr_handle: Handle) -> (r: Result<(), Error>)
        requires
            old(self).wf(),
        ensures
            final(self).wf(),
            final(self).apps == old(self).apps,
            final(self).services == old(self).services,
            final(self).characteristics == old(self).characteristics,
            final(self).descriptors == old(self).descriptors,
            final(self).connections == old(self).connections,
            final(self).registry == old(self).registry,
            final(self).write_buffers == old(self).write_buffers,
            !final(self).router.live(GattsEventKind::ResponseComplete),
            forall|k2: GattsEventKind| k2 != GattsEventKind::ResponseComplete
                ==> final(self).router.slot(k2) == old(self).router.slot(k2),
            match old(self).router.slot(GattsEventKind::ResponseComplete) {
                Waiter::Correlated(Some(m)) => match m.1 {
                    GattsEvent::ResponseComplete { status, handle } => {
                        if handle != attr_handle {
                            r == Err::<(), Error>(Error::IdentityMismatch)
                        } else if status != GattStatus::Success {
                            r == Err::<(), Error>(Error::StatusNotOk(status))
                        } else {
                            r is Ok
                        }
                    },
                    _ => r == Err::<(), Error>(Error::UnexpectedEvent),
                },
                _ => r == Err::<(), Error>(Error::Timeout),
            },
    {
        let taken = self.take_waiter(GattsEventKind::ResponseComplete);
        let msg = match taken {
            Some(m) => m,
            None => {
                return Err(Error::Timeout);
            },
        };
        match msg.1 {
            GattsEvent::ResponseComplete { status, handle } => {
                if handle != attr_handle {
                    return Err(Error::IdentityMismatch);
                }
                if status != GattStatus::Success {
                    return Err(Error::StatusNotOk(status));
                }
                Ok(())
            },
            _ => Err(Error::UnexpectedEvent),
        }
    }

    /// Read an attribute's current bytes.
    pub fn attribute_bytes(&self, handle: Handle) -> (r: Result<Vec<u8>, Error>)
        requires
            self.wf(),
        ensures
            self.registry_has(handle) ==> (r matches Ok(v)
                && v@ == self.attr_at(handle).value@),
            !self.registry_has(handle)
                ==> r == Err::<Vec<u8>, Error>(Error::UnknownHandle(handle)),
    {
        match self.find_attr(handle) {
            Some(i) => {
                proof {
                    self.lemma_attr_at(handle, i as int);
                }
                Ok(crate::codec::copy_bytes(&self.registry[i].value))
            },
            None => Err(Error::UnknownHandle(handle)),
        }
    }

    /// Drain the pending update notification of an attribute: the value
    /// before and after its last unconsumed change.
    pub fn take_update(&mut self, handle: Handle) -> (r: Result<Option<ByteUpdate>, Error>)
        requires
            old(self).wf(),
        ensures
            final(self).wf(),
            final(self).apps == old(self).apps,
            final(self).services == old(self).services,
            final(self).characteristics == old(self).characteristics,
            final(self).descriptors == old(self).descriptors,
            final(self).connections == old(self).connections,
            final(self).write_buffers == old(self).write_buffers,
            final(self).router == old(self).router,
            !old(self).registry_has(handle) ==> *final(self) == *old(self)
                && r == Err::<Option<ByteUpdate>, Error>(Error::UnknownHandle(handle)),
            old(self).registry_has(handle) ==> {
                &&& (r matches Ok(u) && u == old(self).attr_at(handle).pending)
                &&& final(self).registry@ == old(self).registry@.update(
                    old(self).attr_index(handle),
                    (AttrEntry {
                        pending: None,
                        ..old(self).attr_at(handle)
                    }),
                )
            },
    {
        let ghost pre = *old(self);
        let i = match self.find_attr(handle) {
            Some(i) => i,
            None => {
                return Err(Error::UnknownHandle(handle));
            },
        };
        proof {
            self.lemma_attr_at(handle, i as int);
        }
        let mut taken = AttrEntry {
            handle: 0,
            codec: CodecKind::Bytes,
            value: Vec::new(),
            pending: None,
        };
        self.registry.set_and_swap(i, &mut taken);
        let pending = taken.pending.take();
        self.registry.set(i, taken);
        proof {
            assert(self.registry@ =~= pre.registry@.update(
                pre.attr_index(handle),
                (AttrEntry { pending: None, ..pre.attr_at(handle) }),
            ));
            Self::lemma_preserve_wf(pre, *self);
        }
        Ok(pending)
    }
}


impl GattServer {
    /// Read an attribute's value through a typed codec.
    pub fn read_typed<T: crate::codec::Attribute>(&self, handle: Handle) -> (r: Result<
        T,
        Error,
    >)
        requires
            self.wf(),
        ensures
            !self.registry_has(handle) ==> r == Err::<T, Error>(Error::UnknownHandle(
                handle,
            )),
            self.registry_has(handle) ==> match T::spec_decode(
                self.attr_at(handle).value@,
            ) {
                Some(v) => r matches Ok(x) && x@ == v,
                None => r == Err::<T, Error>(Error::CodecError),
            },
    {
        match self.find_attr(handle) {
            Some(i) => {
                proof {
                    self.lemma_attr_at(handle, i as int);
                }
                T::from_bytes(self.registry[i].value.as_slice())
            },
            None => Err(Error::UnknownHandle(handle)),
        }
    }

    /// Update an attribute through a typed codec: the encoding of the value
    /// becomes the attribute's bytes, an update notification is published,
    /// and the indications are planned as in `update_value`.
    pub fn update_typed<T: crate::codec::Attribute>(
        &mut self,
        interface: GattInterface,
        char_handle: Handle,
        value: &T,
    ) -> (r: Result<IndicationPlan, Error>)
        requires
            old(self).wf(),
        ensures
            final(self).wf(),
            final(self).apps == old(self).apps,
            final(self).services == old(self).services,
            final(self).characteristics == old(self).characteristics,
            final(self).descriptors == old(self).descriptors,
            final(self).connections == old(self).connections,
            final(self).write_buffers == old(self).write_buffers,
            final(self).router == old(self).router,
            !old(self).registry_has(char_handle) ==> *final(self) == *old(self)
                && r == Err::<IndicationPlan, Error>(Error::UnknownHandle(char_handle)),
            old(self).registry_has(char_handle)
                && !codec_accepts(
                old(self).attr_at(char_handle).codec,
                T::spec_encode(value@),
            ) ==> *final(self) == *old(self)
                && r == Err::<IndicationPlan, Error>(Error::CodecError),
            old(self).registry_has(char_handle)
                && codec_accepts(
                old(self).attr_at(char_handle).codec,
                T::spec_encode(value@),
            ) ==> {
                &&& final(self).attr_at(char_handle).value@ == T::spec_encode(value@)
                &&& (final(self).attr_at(char_handle).pending matches Some(u)
                    && u.previous@ == old(self).attr_at(char_handle).value@
                    && u.current@ == T::spec_encode(value@))
                &&& (!old(self).has_app(interface)
                    ==> r == Err::<IndicationPlan, Error>(Error::UnknownInterface(
                        interface,
                    )))
                &&& (old(self).has_app(interface) ==> (r matches Ok(plan)
                    && spec_plan_matches(old(self).connections@, interface, char_handle,
                        T::spec_encode(value@), plan)))
            },
    {
        let bytes = value.get_bytes();
        self.update_value(interface, char_handle, &bytes)
    }
}


impl GattServer {
    /// The lifecycle state of a registered service.
    pub fn service_state(&self, service_handle: Handle) -> (r: Result<
        crate::gatt::ServiceState,
        Error,
    >)
        requires
            self.wf(),
        ensures
            self.has_service(service_handle) ==> r == Ok::<crate::gatt::ServiceState, Error>(
                self.services@[self.service_index(service_handle)].state,
            ),
            !self.has_service(service_handle) ==> r == Err::<
                crate::gatt::ServiceState,
                Error,
            >(Error::UnknownHandle(service_handle)),
    {
        match self.find_service(service_handle) {
            Some(i) => {
                proof {
                    self.lemma_service_at(service_handle, i as int);
                }
                Ok(self.services[i].state)
            },
            None => Err(Error::UnknownHandle(service_handle)),
        }
    }
}

} // verus!
