//! The GATT object model: configuration of services, characteristics and
//! descriptors, the records the server keeps for registered ones, and the
//! automatic-descriptor rules.

use vstd::prelude::*;
use vstd::bytes::{spec_u16_to_le_bytes, u16_to_le_bytes};
use vstd::utf8::encode_utf8;
use vstd::string::StrSliceExecFns;
use vstd::slice::slice_to_vec;
use crate::codec::{Attribute, CodecKind};
use crate::error::Error;
use crate::types::{AppId, BtUuid, GattInterface, GattServiceId, Handle};

verus! {

/// The 16-bit UUID of the Client Characteristic Configuration descriptor.
pub const CCCD_UUID: u16 = 0x2902;

/// The 16-bit UUID of the Server Characteristic Configuration descriptor.
pub const SCCD_UUID: u16 = 0x2903;

/// The 16-bit UUID of the Characteristic User Description descriptor.
pub const USER_DESCRIPTION_UUID: u16 = 0x2901;

/// Identity of a service as the application names it.
#[derive(Debug, Clone, Copy, PartialEq, Eq, Structural)]
pub struct ServiceId(pub GattServiceId);

/// Configuration of a characteristic.
#[derive(Debug, Clone, PartialEq)]
pub struct CharacteristicConfig {
    pub uuid: BtUuid,
    pub value_max_len: usize,
    pub readable: bool,
    pub writable: bool,
    /// Broadcast the characteristic; adds an SCCD descriptor automatically.
    pub broadcasted: bool,
    /// Allow notify/indicate; adds a CCCD descriptor automatically.
    pub enable_notify: bool,
    /// Human-readable description; adds a User Description descriptor.
    pub description: Option<String>,
}

/// Configuration of a descriptor.
#[derive(Debug, Clone, Copy, PartialEq, Eq, Structural)]
pub struct DescriptorConfig {
    pub uuid: BtUuid,
    pub readable: bool,
    pub writable: bool,
}

/// Read/write permission set handed to the host stack.
#[derive(Debug, Clone, Copy, PartialEq, Eq, Structural)]
pub struct AttrPermissions {
    pub read: bool,
    pub write: bool,
}

/// Property set of a characteristic as advertised to peers.
#[derive(Debug, Clone, Copy, PartialEq, Eq, Structural)]
pub struct CharProperties {
    pub broadcast: bool,
    pub read: bool,
    pub write: bool,
    pub notify: bool,
    pub indicate: bool,
}

/// Who answers reads and writes: the application (through this framework)
/// or the host stack itself.
#[derive(Debug, Clone, Copy, PartialEq, Eq, Structural)]
pub enum AutoResponse {
    ByApp,
    ByGatt,
}

/// The characteristic declaration handed to the host stack.
#[derive(Debug, Clone, Copy, PartialEq, Eq, Structural)]
pub struct GattCharacteristic {
    pub uuid: BtUuid,
    pub permissions: AttrPermissions,
    pub properties: CharProperties,
    pub max_len: usize,
    pub auto_rsp: AutoResponse,
}

/// The descriptor declaration handed to the host stack.
#[derive(Debug, Clone, Copy, PartialEq, Eq, Structural)]
pub struct GattDescriptor {
    pub uuid: BtUuid,
    pub permissions: AttrPermissions,
}

impl CharacteristicConfig {
    /// The host-stack declaration for this configuration.
    pub open spec fn spec_declaration(self) -> GattCharacteristic {
        GattCharacteristic {
            uuid: self.uuid,
            permissions: AttrPermissions { read: self.readable, write: self.writable },
            properties: CharProperties {
                broadcast: self.broadcasted,
                read: self.readable,
                write: self.writable,
                notify: self.enable_notify,
                indicate: self.enable_notify,
            },
            max_len: self.value_max_len,
            auto_rsp: AutoResponse::ByApp,
        }
    }

    /// The host-stack declaration for this configuration: readable and
    /// writable map to both a permission and a property, broadcasting to the
    /// broadcast property, and notification enables both notify and
    /// indicate.  The framework answers reads and writes itself.
    pub fn to_gatt_characteristic(&self) -> (r: GattCharacteristic)
        ensures
            r == self.spec_declaration(),
    {
        GattCharacteristic {
            uuid: self.uuid,
            permissions: AttrPermissions { read: self.readable, write: self.writable },
            properties: CharProperties {
                broadcast: self.broadcasted,
                read: self.readable,
                write: self.writable,
                notify: self.enable_notify,
                indicate: self.enable_notify,
            },
            max_len: self.value_max_len,
            auto_rsp: AutoResponse::ByApp,
        }
    }
}

impl DescriptorConfig {
    /// The host-stack declaration for this configuration.
    pub fn to_gatt_descriptor(&self) -> (r: GattDescriptor)
        ensures
            r == (GattDescriptor {
                uuid: self.uuid,
                permissions: AttrPermissions { read: self.readable, write: self.writable },
            }),
    {
        GattDescriptor {
            uuid: self.uuid,
            permissions: AttrPermissions { read: self.readable, write: self.writable },
        }
    }
}

/// The abstract content of a descriptor awaiting registration.
pub struct DescriptorModel {
    pub uuid: BtUuid,
    pub readable: bool,
    pub writable: bool,
    pub codec: CodecKind,
    pub initial: Seq<u8>,
}

/// A descriptor awaiting registration: its configuration, the codec of its
/// value, and the initial value bytes.
#[derive(Debug, Clone, PartialEq)]
pub struct Descriptor {
    pub uuid: BtUuid,
    pub readable: bool,
    pub writable: bool,
    pub codec: CodecKind,
    pub initial: Vec<u8>,
}

impl View for Descriptor {
    type V = DescriptorModel;

    open spec fn view(&self) -> DescriptorModel {
        DescriptorModel {
            uuid: self.uuid,
            readable: self.readable,
            writable: self.writable,
            codec: self.codec,
            initial: self.initial@,
        }
    }
}

impl Descriptor {
    /// A fresh descriptor with the same content.
    pub fn copy_of(&self) -> (r: Descriptor)
        ensures
            r@ == self@,
    {
        Descriptor {
            uuid: self.uuid,
            readable: self.readable,
            writable: self.writable,
            codec: self.codec,
            initial: slice_to_vec(self.initial.as_slice()),
        }
    }

    /// A descriptor holding a typed initial value.
    pub fn new<T: Attribute>(value: T, config: DescriptorConfig) -> (r: Descriptor)
        ensures
            r@ == (DescriptorModel {
                uuid: config.uuid,
                readable: config.readable,
                writable: config.writable,
                codec: T::spec_codec_kind(),
                initial: T::spec_encode(value@),
            }),
    {
        Descriptor {
            uuid: config.uuid,
            readable: config.readable,
            writable: config.writable,
            codec: T::codec_kind(),
            initial: value.get_bytes(),
        }
    }
}

/// The views of a list of descriptors awaiting registration.
pub open spec fn descriptor_views(s: Seq<Descriptor>) -> Seq<DescriptorModel> {
    s.map_values(|d: Descriptor| d@)
}

/// Whether some descriptor in the list carries the given UUID.
pub open spec fn spec_has_uuid(s: Seq<DescriptorModel>, u: BtUuid) -> bool {
    exists|i: int| 0 <= i < s.len() && s[i].uuid == u
}

/// The Client Characteristic Configuration descriptor: `u16`, read+write,
/// initially zero (no subscription).
pub open spec fn spec_cccd_model() -> DescriptorModel {
    DescriptorModel {
        uuid: BtUuid::Uuid16(CCCD_UUID),
        readable: true,
        writable: true,
        codec: CodecKind::U16,
        initial: spec_u16_to_le_bytes(0),
    }
}

/// The Server Characteristic Configuration descriptor: `u16`, read+write,
/// initially one (broadcasting on, since it is added exactly when the
/// characteristic is configured to broadcast).
pub open spec fn spec_sccd_model() -> DescriptorModel {
    DescriptorModel {
        uuid: BtUuid::Uuid16(SCCD_UUID),
        readable: true,
        writable: true,
        codec: CodecKind::U16,
        initial: spec_u16_to_le_bytes(1),
    }
}

/// The Characteristic User Description descriptor: UTF-8, read-only.
pub open spec fn spec_user_description_model(s: Seq<char>) -> DescriptorModel {
    DescriptorModel {
        uuid: BtUuid::Uuid16(USER_DESCRIPTION_UUID),
        readable: true,
        writable: false,
        codec: CodecKind::Utf8,
        initial: encode_utf8(s),
    }
}

/// The descriptors a characteristic configuration adds automatically, in
/// registration order: CCCD, then SCCD, then the user description.
pub open spec fn spec_auto_models(cfg: CharacteristicConfig) -> Seq<DescriptorModel> {
    (if cfg.enable_notify {
        seq![spec_cccd_model()]
    } else {
        Seq::empty()
    }) + (if cfg.broadcasted {
        seq![spec_sccd_model()]
    } else {
        Seq::empty()
    }) + (match cfg.description {
        Some(s) => seq![spec_user_description_model(s@)],
        None => Seq::empty(),
    })
}

/// A user-supplied descriptor list collides when one of its UUIDs repeats
/// an automatic descriptor's UUID or another user-supplied one.
pub open spec fn spec_descriptor_collision(
    cfg: CharacteristicConfig,
    user: Seq<DescriptorModel>,
) -> bool {
    ||| exists|i: int| 0 <= i < user.len()
        && spec_has_uuid(spec_auto_models(cfg), #[trigger] user[i].uuid)
    ||| exists|i: int, j: int| 0 <= i < j < user.len()
        && #[trigger] user[i].uuid == #[trigger] user[j].uuid
}

fn cccd_descriptor() -> (r: Descriptor)
    ensures
        r@ == spec_cccd_model(),
{
    Descriptor {
        uuid: BtUuid::Uuid16(CCCD_UUID),
        readable: true,
        writable: true,
        codec: CodecKind::U16,
        initial: u16_to_le_bytes(0),
    }
}

fn sccd_descriptor() -> (r: Descriptor)
    ensures
        r@ == spec_sccd_model(),
{
    Descriptor {
        uuid: BtUuid::Uuid16(SCCD_UUID),
        readable: true,
        writable: true,
        codec: CodecKind::U16,
        initial: u16_to_le_bytes(1),
    }
}

fn user_description_descriptor(s: &String) -> (r: Descriptor)
    ensures
        r@ == spec_user_description_model(s@),
{
    Descriptor {
        uuid: BtUuid::Uuid16(USER_DESCRIPTION_UUID),
        readable: true,
        writable: false,
        codec: CodecKind::Utf8,
        initial: s.as_str().as_bytes_vec(),
    }
}

/// Whether some queued descriptor carries the given UUID.
fn contains_uuid(s: &Vec<Descriptor>, u: BtUuid) -> (r: bool)
    ensures
        r == spec_has_uuid(descriptor_views(s@), u),
{
    let n = s.len();
    let mut i: usize = 0;
    while i < n
        invariant
            n == s@.len(),
            i <= n,
            forall|j: int| 0 <= j < i ==> #[trigger] s@[j].uuid != u,
        decreases n - i,
    {
        if s[i].uuid == u {
            proof {
                assert(descriptor_views(s@)[i as int].uuid == u);
            }
            return true;
        }
        i = i + 1;
    }
    proof {
        assert forall|k: int| 0 <= k < descriptor_views(s@).len()
            implies #[trigger] descriptor_views(s@)[k].uuid != u by {
            assert(s@[k].uuid != u);
        }
    }
    false
}

/// The descriptors to register for a characteristic, in order: the
/// automatic ones (CCCD when notification is enabled, SCCD when broadcast,
/// the user description when one is configured), then the user-supplied
/// ones.  A user-supplied UUID that repeats an automatic or an earlier
/// user-supplied UUID is refused, and nothing is registered.
pub fn plan_descriptors(cfg: &CharacteristicConfig, user: &Vec<Descriptor>) -> (r: Result<
    Vec<Descriptor>,
    Error,
>)
    ensures
        r matches Ok(v) ==> descriptor_views(v@) == spec_auto_models(*cfg)
            + descriptor_views(user@),
        r is Ok <==> !spec_descriptor_collision(*cfg, descriptor_views(user@)),
        r matches Err(e) ==> e == Error::DuplicateUuid,
{
    let mut out: Vec<Descriptor> = Vec::new();
    if cfg.enable_notify {
        out.push(cccd_descriptor());
    }
    if cfg.broadcasted {
        out.push(sccd_descriptor());
    }
    match &cfg.description {
        Some(s) => {
            out.push(user_description_descriptor(s));
        },
        None => {},
    }
    proof {
        assert(descriptor_views(out@) =~= spec_auto_models(*cfg));
    }
    let ghost user0 = descriptor_views(user@);
    let n = user.len();
    let mut i: usize = 0;
    while i < n
        invariant
            n == user@.len(),
            user0.len() == n,
            i <= n,
            forall|j: int| 0 <= j < n ==> #[trigger] user@[j]@ == user0[j],
            descriptor_views(out@) =~= spec_auto_models(*cfg) + user0.subrange(0, i as int),
            forall|j: int| 0 <= j < i
                ==> !spec_has_uuid(spec_auto_models(*cfg), #[trigger] user0[j].uuid),
            forall|a: int, b: int| 0 <= a < b < i ==> #[trigger] user0[a].uuid
                != #[trigger] user0[b].uuid,
        decreases n - i,
    {
        let item = user[i].copy_of();
        proof {
            assert(item@ == user0[i as int]);
        }
        let ghost out_pre = out@;
        if contains_uuid(&out, item.uuid) {
            proof {
                let autos = spec_auto_models(*cfg);
                let views = descriptor_views(out_pre);
                let w = choose|k: int| 0 <= k < views.len() && views[k].uuid == item.uuid;
                assert(views[w] == (autos + user0.subrange(0, i as int))[w]);
                if w < autos.len() {
                    assert(autos[w].uuid == user0[i as int].uuid);
                    assert(spec_has_uuid(autos, user0[i as int].uuid));
                } else {
                    assert(views[w] == user0.subrange(0, i as int)[w - autos.len()]);
                    assert(user0[w - autos.len()].uuid == user0[i as int].uuid);
                }
                assert(spec_descriptor_collision(*cfg, user0));
                assert(user0 == descriptor_views(user@));
                assert(spec_descriptor_collision(*cfg, descriptor_views(user@)));
            }
            return Err(Error::DuplicateUuid);
        }
        out.push(item);
        proof {
            let autos = spec_auto_models(*cfg);
            assert(descriptor_views(out@) =~= autos + user0.subrange(0, i as int + 1)) by {
                assert(out@.len() == out_pre.len() + 1);
                assert(descriptor_views(out_pre) == autos + user0.subrange(0, i as int));
                assert forall|k: int| 0 <= k < out@.len() implies #[trigger] descriptor_views(
                    out@,
                )[k] == (autos + user0.subrange(0, i as int + 1))[k] by {
                    if k < out_pre.len() {
                        assert(out@[k] == out_pre[k]);
                        assert(descriptor_views(out_pre)[k]
                            == (autos + user0.subrange(0, i as int))[k]);
                        if k >= autos.len() {
                            assert(user0.subrange(0, i as int)[k - autos.len()]
                                == user0.subrange(0, i as int + 1)[k - autos.len()]);
                        }
                    } else {
                        assert(out@[k] == item);
                        assert(item@ == user0.subrange(0, i as int + 1)[k - autos.len()]);
                    }
                }
            }
            assert(!spec_has_uuid(autos, user0[i as int].uuid)) by {
                if spec_has_uuid(autos, user0[i as int].uuid) {
                    let k = choose|k: int| 0 <= k < autos.len()
                        && autos[k].uuid == user0[i as int].uuid;
                    assert(descriptor_views(out_pre)[k].uuid == user0[i as int].uuid);
                    assert(spec_has_uuid(descriptor_views(out_pre), user0[i as int].uuid));
                }
            }
            assert forall|a: int| 0 <= a < i implies #[trigger] user0[a].uuid
                != user0[i as int].uuid by {
                assert(descriptor_views(out_pre)[autos.len() + a]
                    == user0.subrange(0, i as int)[a]);
                assert(!spec_has_uuid(descriptor_views(out_pre), user0[i as int].uuid));
            }
        }
        i = i + 1;
    }
    proof {
        assert(user0.subrange(0, n as int) =~= user0);
        assert(!spec_descriptor_collision(*cfg, user0));
    }
    Ok(out)
}

/// What the server records for a registered application.
#[derive(Debug, Clone, Copy, PartialEq, Eq, Structural)]
pub struct AppRecord {
    pub id: AppId,
    pub interface: GattInterface,
}

/// Lifecycle state of a registered service.
#[derive(Debug, Clone, Copy, PartialEq, Eq, Structural)]
pub enum ServiceState {
    Created,
    Started,
    Stopped,
}

/// The transitions a service may take: created services start, started
/// services stop, stopped services start again.
pub open spec fn spec_lifecycle_step(pre: ServiceState, post: ServiceState) -> bool {
    ||| (pre == ServiceState::Created && post == ServiceState::Started)
    ||| (pre == ServiceState::Started && post == ServiceState::Stopped)
    ||| (pre == ServiceState::Stopped && post == ServiceState::Started)
    ||| pre == post
}

/// What the server records for a created service.
#[derive(Debug, Clone, Copy, PartialEq, Eq, Structural)]
pub struct ServiceRecord {
    pub interface: GattInterface,
    pub id: ServiceId,
    pub num_handles: u16,
    pub handle: Handle,
    pub state: ServiceState,
}

/// What the server records for a registered characteristic.
#[derive(Debug, Clone, PartialEq)]
pub struct CharacteristicRecord {
    pub service_handle: Handle,
    pub config: CharacteristicConfig,
    pub handle: Handle,
}

/// What the server records for a descriptor: attached when its
/// characteristic commits, handle assigned when its own registration
/// completes.
#[derive(Debug, Clone, PartialEq)]
pub struct DescriptorRecord {
    pub char_handle: Handle,
    pub uuid: BtUuid,
    pub readable: bool,
    pub writable: bool,
    pub codec: CodecKind,
    pub initial: Vec<u8>,
    pub handle: Option<Handle>,
}


/// The automatic descriptors carry pairwise distinct UUIDs.
pub proof fn lemma_auto_models_distinct(cfg: CharacteristicConfig)
    ensures
        forall|a: int, b: int| 0 <= a < b < spec_auto_models(cfg).len()
            ==> #[trigger] spec_auto_models(cfg)[a].uuid
                != #[trigger] spec_auto_models(cfg)[b].uuid,
{
    let autos = spec_auto_models(cfg);
    assert forall|a: int, b: int| 0 <= a < b < autos.len() implies #[trigger] autos[a].uuid
        != #[trigger] autos[b].uuid by {
        let cccd = if cfg.enable_notify {
            seq![spec_cccd_model()]
        } else {
            Seq::<DescriptorModel>::empty()
        };
        let sccd = if cfg.broadcasted {
            seq![spec_sccd_model()]
        } else {
            Seq::<DescriptorModel>::empty()
        };
        let user = match cfg.description {
            Some(s) => seq![spec_user_description_model(s@)],
            None => Seq::<DescriptorModel>::empty(),
        };
        assert(autos == cccd + sccd + user);
        assert(autos.len() <= 3);
    }
}

} // verus!
