//! The framework's global invariants, stated as public lemmas over a
//! well-formed server, so that a reader sees them in one place.

use vstd::prelude::*;
use crate::gatt::CCCD_UUID;
use crate::server::GattServer;
use crate::types::BtUuid;

verus! {

/// Every registered attribute appears at most once in the global registry:
/// two registry entries with one handle are the same entry.
pub proof fn lemma_registry_handle_exactly_once(s: GattServer, i: int, j: int)
    requires
        s.wf(),
        0 <= i < s.registry@.len(),
        0 <= j < s.registry@.len(),
        s.registry@[i].handle == s.registry@[j].handle,
    ensures
        i == j,
{
    if i < j {
        assert(s.registry@[i].handle != s.registry@[j].handle);
    } else if j < i {
        assert(s.registry@[j].handle != s.registry@[i].handle);
    }
}

/// Every registered attribute's handle is present in the global registry:
/// each characteristic's always, and each descriptor's as soon as it is
/// assigned.
pub proof fn lemma_registered_attributes_present(s: GattServer)
    requires
        s.wf(),
    ensures
        forall|i: int| 0 <= i < s.characteristics@.len()
            ==> s.registry_has(#[trigger] s.characteristics@[i].handle),
        forall|i: int| 0 <= i < s.descriptors@.len()
            ==> ((#[trigger] s.descriptors@[i].handle) matches Some(h)
                ==> s.registry_has(h)),
{
}

/// Every open connection sits in exactly one application's connection map:
/// a connection id identifies one connection, which names one interface,
/// and an application is registered on that interface.
pub proof fn lemma_connection_in_one_app(s: GattServer, i: int, j: int)
    requires
        s.wf(),
        0 <= i < s.connections@.len(),
        0 <= j < s.connections@.len(),
        s.connections@[i].id == s.connections@[j].id,
    ensures
        i == j,
        s.has_app(s.connections@[i].interface),
{
    if i < j {
        assert(s.connections@[i].id != s.connections@[j].id);
    } else if j < i {
        assert(s.connections@[j].id != s.connections@[i].id);
    }
    assert(s.has_app(s.connections@[i].interface));
}

/// Every characteristic with notification enabled carries a Client
/// Characteristic Configuration descriptor among its descriptors.
pub proof fn lemma_notify_has_cccd(s: GattServer, i: int)
    requires
        s.wf(),
        0 <= i < s.characteristics@.len(),
        s.characteristics@[i].config.enable_notify,
    ensures
        s.char_has_descriptor(s.characteristics@[i].handle, BtUuid::Uuid16(CCCD_UUID)),
{
}

} // verus!
