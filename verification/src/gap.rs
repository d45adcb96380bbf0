//! The GAP manager: advertising configuration, the advertising-start
//! operation, and the auto-advertising decision that keeps the device
//! connectable while it has room for another connection.

use vstd::prelude::*;
use vstd::string::StringExecFns;
use crate::error::Error;
use crate::event::{spec_gap_kind, GapEvent, GapEventKind};
use crate::router::{RouteOutcome, Router, Waiter};
use crate::server::GattServer;
use crate::types::{BtStatus, BtUuid};

verus! {

/// GAP appearance category advertised to peers.
#[derive(Debug, Clone, Copy, PartialEq, Eq, Structural)]
pub enum AppearanceCategory {
    Unknown,
    Phone,
    Computer,
    Watch,
    Sensor,
    Other,
}

/// The advertising configuration an application chooses.
#[derive(Debug, Clone, PartialEq)]
pub struct GapConfig {
    pub device_name: String,
    pub include_name_in_advertising: bool,
    pub include_txpower_in_advertising: bool,
    pub preffered_min_interval: i32,
    pub preffered_max_interval: i32,
    pub appearance: AppearanceCategory,
    pub manufacturer_data: Option<Vec<u8>>,
    pub service_data: Option<Vec<u8>>,
    pub service_uuid: Option<BtUuid>,
    /// When set, the auto-advertiser restarts advertising while fewer than
    /// this many connections are open; `None` disables auto-advertising.
    pub max_connections: Option<usize>,
}

impl Default for GapConfig {
    /// The default configuration: name and TX power advertised, no hints,
    /// no extra data, and room for a single connection.
    fn default() -> (r: GapConfig)
        ensures
            r.device_name@ == "ESP32"@,
            r.include_name_in_advertising,
            r.include_txpower_in_advertising,
            r.preffered_min_interval == 0,
            r.preffered_max_interval == 0,
            r.appearance == AppearanceCategory::Unknown,
            r.manufacturer_data is None,
            r.service_data is None,
            r.service_uuid is None,
            r.max_connections == Some(1usize),
    {
        GapConfig {
            device_name: String::from_str("ESP32"),
            include_name_in_advertising: true,
            include_txpower_in_advertising: true,
            preffered_min_interval: 0,
            preffered_max_interval: 0,
            appearance: AppearanceCategory::Unknown,
            manufacturer_data: None,
            service_data: None,
            service_uuid: None,
            max_connections: Some(1),
        }
    }
}

/// The advertising parameter record handed to the host stack.
#[derive(Debug, Clone, PartialEq)]
pub struct AdvConfiguration {
    pub set_scan_rsp: bool,
    pub include_name: bool,
    pub include_txpower: bool,
    pub min_interval: i32,
    pub max_interval: i32,
    pub appearance: AppearanceCategory,
    pub flag: u8,
    pub service_uuid: Option<BtUuid>,
    pub service_data: Option<Vec<u8>>,
    pub manufacturer_data: Option<Vec<u8>>,
}

impl GapConfig {
    /// The host-stack advertising record for this configuration.
    pub fn to_adv_configuration(&self) -> (r: AdvConfiguration)
        ensures
            !r.set_scan_rsp,
            r.include_name == self.include_name_in_advertising,
            r.include_txpower == self.include_txpower_in_advertising,
            r.min_interval == self.preffered_min_interval,
            r.max_interval == self.preffered_max_interval,
            r.appearance == self.appearance,
            r.flag == 0,
            r.service_uuid == self.service_uuid,
            (r.service_data matches Some(d) ==> self.service_data matches Some(d2)
                && d@ == d2@),
            r.service_data is Some <==> self.service_data is Some,
            (r.manufacturer_data matches Some(d) ==> self.manufacturer_data matches Some(d2)
                && d@ == d2@),
            r.manufacturer_data is Some <==> self.manufacturer_data is Some,
    {
        AdvConfiguration {
            set_scan_rsp: false,
            include_name: self.include_name_in_advertising,
            include_txpower: self.include_txpower_in_advertising,
            min_interval: self.preffered_min_interval,
            max_interval: self.preffered_max_interval,
            appearance: self.appearance,
            flag: 0,
            service_uuid: self.service_uuid,
            service_data: match &self.service_data {
                Some(d) => Some(crate::codec::copy_bytes(d)),
                None => None,
            },
            manufacturer_data: match &self.manufacturer_data {
                Some(d) => Some(crate::codec::copy_bytes(d)),
                None => None,
            },
        }
    }
}

/// The GAP manager's state: the configuration and the GAP event router.
pub struct Gap {
    pub config: GapConfig,
    pub router: Router<GapEventKind, GapEvent>,
}

impl Gap {
    /// A fresh GAP manager with the default configuration.
    pub fn new() -> (r: Gap)
        ensures
            r.router.wf(),
            forall|k: GapEventKind| !r.router.live(k),
            r.config.max_connections == Some(1usize),
    {
        Gap { config: GapConfig::default(), router: Router::new() }
    }

    /// Replace the configuration.  The surrounding program then applies the
    /// device name and the advertising record to the host stack.
    pub fn set_config(&mut self, config: GapConfig)
        requires
            old(self).router.wf(),
        ensures
            final(self).config == config,
            final(self).router == old(self).router,
    {
        self.config = config;
    }

    /// Route one GAP event from the host callback.
    pub fn route_event(&mut self, e: GapEvent) -> (r: RouteOutcome<GapEvent>)
        requires
            old(self).router.wf(),
        ensures
            final(self).router.wf(),
            final(self).config == old(self).config,
            forall|k2: GapEventKind| k2 != spec_gap_kind(e)
                ==> final(self).router.slot(k2) == old(self).router.slot(k2),
            match r {
                RouteOutcome::Stored => old(self).router.slot(spec_gap_kind(e))
                    == Waiter::<GapEvent>::Correlated(None)
                    && final(self).router.slot(spec_gap_kind(e))
                        == Waiter::<GapEvent>::Correlated(Some(e)),
                RouteOutcome::ToDispatcher(m) => m == e
                    && old(self).router.slot(spec_gap_kind(e)) is Dispatcher
                    && final(self).router == old(self).router,
                RouteOutcome::SlotFull(m) => m == e
                    && (old(self).router.slot(spec_gap_kind(e))
                        matches Waiter::Correlated(Some(_)))
                    && final(self).router == old(self).router,
                RouteOutcome::NoWaiter(m) => m == e
                    && old(self).router.slot(spec_gap_kind(e)) is Vacant
                    && final(self).router == old(self).router,
            },
    {
        let k = e.kind();
        self.router.deliver(k, e)
    }

    /// Begin starting advertising: install the waiter for the reply.  The
    /// surrounding program then makes the host call.  Safe to issue while
    /// advertising already runs: the host stack reports success again.
    pub fn start_advertising_prepare(&mut self)
        requires
            old(self).router.wf(),
        ensures
            final(self).router.wf(),
            final(self).config == old(self).config,
            final(self).router.slot(GapEventKind::AdvertisingStarted)
                == Waiter::<GapEvent>::Correlated(None),
            forall|k2: GapEventKind| k2 != GapEventKind::AdvertisingStarted
                ==> final(self).router.slot(k2) == old(self).router.slot(k2),
    {
        self.router.install(GapEventKind::AdvertisingStarted);
    }

    /// Finish starting advertising.  The waiter is dismantled on every
    /// path.  Succeeds exactly when the host stack reported success —
    /// also when advertising was already running.
    pub fn start_advertising_complete(&mut self) -> (r: Result<(), Error>)
        requires
            old(self).router.wf(),
        ensures
            final(self).router.wf(),
            final(self).config == old(self).config,
            !final(self).router.live(GapEventKind::AdvertisingStarted),
            forall|k2: GapEventKind| k2 != GapEventKind::AdvertisingStarted
                ==> final(self).router.slot(k2) == old(self).router.slot(k2),
            match old(self).router.slot(GapEventKind::AdvertisingStarted) {
                Waiter::Correlated(Some(e)) => match e {
                    GapEvent::AdvertisingStarted(status) => {
                        if status == BtStatus::Success {
                            r is Ok
                        } else {
                            r == Err::<(), Error>(Error::BtStatusNotOk(status))
                        }
                    },
                    _ => r == Err::<(), Error>(Error::UnexpectedEvent),
                },
                _ => r == Err::<(), Error>(Error::Timeout),
            },
    {
        let taken = self.router.take(GapEventKind::AdvertisingStarted);
        self.router.vacate(GapEventKind::AdvertisingStarted);
        let e = match taken {
            Some(e) => e,
            None => {
                return Err(Error::Timeout);
            },
        };
        match e {
            GapEvent::AdvertisingStarted(status) => {
                if status == BtStatus::Success {
                    Ok(())
                } else {
                    Err(Error::BtStatusNotOk(status))
                }
            },
            _ => Err(Error::UnexpectedEvent),
        }
    }

    /// The auto-advertising decision, taken on every connection-status
    /// event: advertise exactly while the open connections are fewer than
    /// the configured budget.  With no budget configured auto-advertising
    /// is disabled.
    pub fn check_if_need_start_advertising(&self, server: &GattServer) -> (r: Result<
        bool,
        Error,
    >)
        ensures
            match self.config.max_connections {
                Some(max) => r == Ok::<bool, Error>(
                    server.connections@.len() < max as int,
                ),
                None => r == Err::<bool, Error>(Error::MaxConnectionsNotSet),
            },
    {
        let max = match self.config.max_connections {
            Some(m) => m,
            None => {
                return Err(Error::MaxConnectionsNotSet);
            },
        };
        Ok(server.connections.len() < max)
    }
}

} // verus!
