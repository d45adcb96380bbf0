//! A verified model of a BLE GATT peripheral framework.
//!
//! The library turns a flat, callback-driven host-stack API into a typed,
//! hierarchical object model: applications own services, services own
//! characteristics, characteristics own descriptors, and every registered
//! attribute is indexed by its 16-bit handle in a global registry.
//!
//! The host stack itself (radio, link layer, callback threads, channels) is an
//! external collaborator: the surrounding program performs the host calls and
//! feeds the replies and the long-lived event stream back into the verified
//! core.  Everything that decides — event routing, request/response
//! correlation, the read/write/prepare-write protocol, attribute codecs,
//! advertising control — lives here and carries a contract.

pub mod types;
pub mod error;
pub mod codec;
pub mod attribute;
pub mod event;
pub mod router;
pub mod connection;
pub mod gatt;
pub mod server;
pub mod gap;
pub mod laws;
