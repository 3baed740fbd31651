//! Wi-Fi provisioning and connection management.
//!
//! The [`Supervisor`] state machine decides everything the provisioning
//! routine does: whether to try stored credentials, when to fall back to the
//! captive portal, which submission to validate, when to persist, and when
//! the hard-reset fail-safe fires.  The driver that owns the radio performs
//! the returned [`WmAction`]s in order and feeds the outcomes back in as the
//! next call.  The [`ReconnectMonitor`] is the companion machine of the
//! long-lived reconnection task that runs after provisioning.
//!
//! All waiting, radio traffic and persistence mirroring happen in the
//! driver; the machines here are pure decisions from state and event to next
//! state and actions.

pub mod bus;
pub mod http;
pub mod nvs;
pub mod scan;
pub mod structs;

use vstd::prelude::*;

use crate::wifimanager::nvs::{saved_region_bytes, SavedSettings};
use crate::wifimanager::structs::{is_record, json_bytes, wf_record, AutoSetupSettings, WmSettings};

verus! {

/// Where the provisioning routine stands.
#[derive(Clone, Copy, Debug, PartialEq, Eq, Structural)]
pub enum ConnectionState {
    /// Trying the credentials found in the store at boot.
    TryingStored,
    /// The access point and portal are up; waiting on submissions, the scan
    /// timer and the reset timer.
    Provisioning,
    /// A submission is being validated by attempting the connection.
    Validating,
    /// A connection is established; the routine is done.
    Reconnected,
    /// The hard-reset fail-safe fired; the device restarts.
    ForcedReset,
}

/// What the driver must do next, in the order given.
#[derive(Clone, Debug, PartialEq, Eq)]
pub enum WmAction {
    /// Configure the radio as a client with these credentials and attempt a
    /// connection, bounded by the configured connection timeout.
    TryConnect(AutoSetupSettings),
    /// Bring up the local access point and its DHCP service.
    StartAccessPoint,
    /// Spawn the captive-portal worker tasks.
    StartHttpServer,
    /// Issue one radio scan and publish the rendered results.
    StartScan,
    /// Tear down the access point's DHCP service.
    StopDhcp,
    /// Fire the end broadcast so every portal worker exits.
    SignalEnd,
    /// Force a full device restart.
    Restart,
}

/// The supervisor: the top-level provisioning state machine.
pub struct Supervisor {
    settings: WmSettings,
    state: ConnectionState,
    start_time: u64,
    last_scan: Option<u64>,
    pending: Option<AutoSetupSettings>,
    connected: Option<AutoSetupSettings>,
}

impl Supervisor {
    pub closed spec fn spec_state(self) -> ConnectionState {
        self.state
    }

    /// The credentials of the attempt in flight.
    pub closed spec fn spec_pending(self) -> Option<AutoSetupSettings> {
        self.pending
    }

    /// The credentials the routine ended up connected with.
    pub closed spec fn spec_connected(self) -> Option<AutoSetupSettings> {
        self.connected
    }

    pub closed spec fn spec_settings(self) -> WmSettings {
        self.settings
    }

    /// When provisioning began, for the hard-reset deadline.
    pub closed spec fn spec_start_time(self) -> u64 {
        self.start_time
    }

    /// When the last scan was issued, if any.
    pub closed spec fn spec_last_scan(self) -> Option<u64> {
        self.last_scan
    }

    /// Credentials held by the machine are always well formed, and each
    /// state holds what it needs.
    pub open spec fn wf(self) -> bool {
        &&& (self.spec_state() is Validating ==> self.spec_pending() is Some)
        &&& (self.spec_state() is Reconnected ==> self.spec_connected() is Some)
        &&& (match self.spec_pending() {
            Some(p) => p.wf(),
            None => true,
        })
        &&& (match self.spec_connected() {
            Some(c) => c.wf(),
            None => true,
        })
    }

    /// A scan is due when none has run yet or the scan interval has elapsed
    /// since the last one.
    pub open spec fn scan_due(self, now: u64) -> bool {
        match self.spec_last_scan() {
            None => true,
            Some(t) => now - t >= self.spec_settings().wifi_scan_interval,
        }
    }

    /// The hard-reset fail-safe is due when it is configured and its
    /// deadline has passed since provisioning began.
    pub open spec fn reset_due(self, now: u64) -> bool {
        match self.spec_settings().esp_reset_timeout {
            None => false,
            Some(deadline) => now - self.spec_start_time() >= deadline,
        }
    }

    /// A fresh supervisor, about to try the stored credentials.
    pub fn new(settings: WmSettings) -> (r: Supervisor)
        ensures
            r.wf(),
            r.spec_state() is TryingStored,
            r.spec_pending() is None,
            r.spec_connected() is None,
            r.spec_settings() == settings,
    {
        Supervisor {
            settings,
            state: ConnectionState::TryingStored,
            start_time: 0,
            last_scan: None,
            pending: None,
            connected: None,
        }
    }

    /// Starts the routine with what the credential store held.  Stored
    /// credentials are attempted first; their absence is not an error — it
    /// means provisioning.
    pub fn start(&mut self, stored: Option<AutoSetupSettings>, now: u64) -> (actions: Vec<
        WmAction,
    >)
        requires
            old(self).wf(),
            old(self).spec_state() is TryingStored,
            stored matches Some(s) ==> s.wf(),
        ensures
            (*final(self)).wf(),
            (*final(self)).spec_settings() == old(self).spec_settings(),
            (*final(self)).spec_connected() == old(self).spec_connected(),
            stored matches Some(s) ==> {
                &&& (*final(self)).spec_state() is TryingStored
                &&& (*final(self)).spec_pending() == Some(s)
                &&& actions@.len() == 1
                &&& actions@[0] matches WmAction::TryConnect(c) && c.ssid@ == s.ssid@
                    && c.password@ == s.password@
            },
            stored is None ==> {
                &&& (*final(self)).spec_state() is Provisioning
                &&& (*final(self)).spec_start_time() == now
                &&& (*final(self)).spec_last_scan() is None
                &&& (*final(self)).spec_pending() is None
                &&& actions@ =~= seq![WmAction::StartAccessPoint, WmAction::StartHttpServer]
            },
    {
        match stored {
            Some(s) => {
                let c = clone_record(&s);
                self.pending = Some(s);
                let mut actions: Vec<WmAction> = Vec::new();
                actions.push(WmAction::TryConnect(c));
                actions
            },
            None => self.enter_provisioning(now),
        }
    }

    /// Switches to provisioning: access-point mode, portal up, timers reset.
    fn enter_provisioning(&mut self, now: u64) -> (actions: Vec<WmAction>)
        requires
            old(self).wf(),
        ensures
            (*final(self)).wf(),
            (*final(self)).spec_state() is Provisioning,
            (*final(self)).spec_start_time() == now,
            (*final(self)).spec_last_scan() is None,
            (*final(self)).spec_pending() is None,
            (*final(self)).spec_settings() == old(self).spec_settings(),
            (*final(self)).spec_connected() == old(self).spec_connected(),
            actions@ =~= seq![WmAction::StartAccessPoint, WmAction::StartHttpServer],
    {
        self.state = ConnectionState::Provisioning;
        self.start_time = now;
        self.last_scan = None;
        self.pending = None;
        let mut actions: Vec<WmAction> = Vec::new();
        actions.push(WmAction::StartAccessPoint);
        actions.push(WmAction::StartHttpServer);
        actions
    }

    /// Outcome of the stored-credential attempt.  Success ends the routine
    /// with those credentials, with no persistence rewrite; failure enters
    /// provisioning, and the access point comes up.
    pub fn on_stored_result(&mut self, connected: bool, now: u64) -> (actions: Vec<WmAction>)
        requires
            old(self).wf(),
            old(self).spec_state() is TryingStored,
            old(self).spec_pending() is Some,
        ensures
            (*final(self)).wf(),
            (*final(self)).spec_settings() == old(self).spec_settings(),
            connected ==> {
                &&& (*final(self)).spec_state() is Reconnected
                &&& (*final(self)).spec_connected() == old(self).spec_pending()
                &&& actions@ =~= Seq::<WmAction>::empty()
            },
            !connected ==> {
                &&& (*final(self)).spec_state() is Provisioning
                &&& (*final(self)).spec_start_time() == now
                &&& (*final(self)).spec_connected() is None
                &&& (*final(self)).spec_pending() is None
                &&& actions@ =~= seq![WmAction::StartAccessPoint, WmAction::StartHttpServer]
            },
    {
        if connected {
            self.connected = self.pending.take();
            self.state = ConnectionState::Reconnected;
            Vec::new()
        } else {
            self.connected = None;
            self.enter_provisioning(now)
        }
    }

    /// One pass of the provisioning loop, handling whichever wake source
    /// resolved first: a submission if one is in hand, else the scan timer,
    /// else the hard-reset timer.  A submission that parses starts a
    /// validation attempt; a malformed one is ignored and the loop continues.
    /// The restart fires only at or after the configured deadline, never
    /// before.
    pub fn provisioning_poll(&mut self, now: u64, submission: Option<Vec<u8>>) -> (actions: Vec<
        WmAction,
    >)
        requires
            old(self).wf(),
            old(self).spec_state() is Provisioning,
            now >= old(self).spec_start_time(),
            old(self).spec_last_scan() matches Some(t) ==> t <= now,
        ensures
            (*final(self)).wf(),
            (*final(self)).spec_settings() == old(self).spec_settings(),
            (*final(self)).spec_connected() == old(self).spec_connected(),
            submission matches Some(bytes) ==> {
                &&& is_record(bytes@) ==> {
                    &&& (*final(self)).spec_state() is Validating
                    &&& (*final(self)).spec_pending() matches Some(p) && bytes@ == json_bytes(
                        p.ssid@,
                        p.password@,
                    ) && actions@.len() == 1 && (actions@[0] matches WmAction::TryConnect(c)
                        && c.ssid@ == p.ssid@ && c.password@ == p.password@)
                    &&& (*final(self)).spec_start_time() == old(self).spec_start_time()
                    &&& (*final(self)).spec_last_scan() == old(self).spec_last_scan()
                }
                &&& !is_record(bytes@) ==> *final(self) == *old(self) && actions@ =~= Seq::<
                    WmAction,
                >::empty()
            },
            submission is None && old(self).scan_due(now) ==> {
                &&& (*final(self)).spec_state() is Provisioning
                &&& (*final(self)).spec_last_scan() == Some(now)
                &&& (*final(self)).spec_start_time() == old(self).spec_start_time()
                &&& (*final(self)).spec_pending() == old(self).spec_pending()
                &&& actions@ =~= seq![WmAction::StartScan]
            },
            submission is None && !old(self).scan_due(now) && old(self).reset_due(now) ==> {
                &&& (*final(self)).spec_state() is ForcedReset
                &&& actions@ =~= seq![WmAction::Restart]
            },
            submission is None && !old(self).scan_due(now) && !old(self).reset_due(now)
                ==> *final(self) == *old(self) && actions@ =~= Seq::<WmAction>::empty(),
            forall|k: int|
                0 <= k < actions@.len() && actions@[k] is Restart ==> old(self).reset_due(now),
    {
        match submission {
            Some(bytes) => {
                match AutoSetupSettings::from_json(bytes.as_slice()) {
                    Some(p) => {
                        proof {
                            crate::wifimanager::structs::lemma_record_of_json_bytes(
                                p.ssid@,
                                p.password@,
                            );
                        }
                        let c = clone_record(&p);
                        self.pending = Some(p);
                        self.state = ConnectionState::Validating;
                        let mut actions: Vec<WmAction> = Vec::new();
                        actions.push(WmAction::TryConnect(c));
                        actions
                    },
                    None => {
                        proof {
                            assert(!is_record(bytes@)) by {
                                if is_record(bytes@) {
                                    let (ss, pp): (Seq<u8>, Seq<u8>) = choose|
                                        ss: Seq<u8>,
                                        pp: Seq<u8>,
                                    |
                                        wf_record(ss, pp) && bytes@ == #[trigger] json_bytes(
                                            ss,
                                            pp,
                                        );
                                }
                            }
                        }
                        Vec::new()
                    },
                }
            },
            None => {
                let scan_now = match self.last_scan {
                    None => true,
                    Some(t) => now - t >= self.settings.wifi_scan_interval,
                };
                if scan_now {
                    self.last_scan = Some(now);
                    let mut actions: Vec<WmAction> = Vec::new();
                    actions.push(WmAction::StartScan);
                    return actions;
                }
                let reset_now = match self.settings.esp_reset_timeout {
                    None => false,
                    Some(deadline) => now - self.start_time >= deadline,
                };
                if reset_now {
                    self.state = ConnectionState::ForcedReset;
                    let mut actions: Vec<WmAction> = Vec::new();
                    actions.push(WmAction::Restart);
                    return actions;
                }
                Vec::new()
            },
        }
    }

    /// Outcome of a submission's validation attempt.  Success persists the
    /// record to the store and only then tears the portal down: the DHCP
    /// stop and the end broadcast follow the save, in that order.  Failure
    /// discards the attempt and stays in provisioning so the human may
    /// resubmit.
    pub fn on_validation_result(
        &mut self,
        connected: bool,
        store: &mut SavedSettings,
    ) -> (actions: Vec<WmAction>)
        requires
            old(self).wf(),
            old(self).spec_state() is Validating,
            old(store).wf(),
        ensures
            (*final(self)).wf(),
            (*final(store)).wf(),
            (*final(self)).spec_settings() == old(self).spec_settings(),
            connected ==> {
                &&& old(self).spec_pending() matches Some(p) && (*final(store)).stored()
                    =~= saved_region_bytes(p.ssid@, p.password@)
                &&& (*final(self)).spec_state() is Reconnected
                &&& (*final(self)).spec_connected() == old(self).spec_pending()
                &&& actions@ =~= seq![WmAction::StopDhcp, WmAction::SignalEnd]
            },
            !connected ==> {
                &&& *final(store) == *old(store)
                &&& (*final(self)).spec_state() is Provisioning
                &&& (*final(self)).spec_pending() is None
                &&& (*final(self)).spec_connected() == old(self).spec_connected()
                &&& (*final(self)).spec_start_time() == old(self).spec_start_time()
                &&& (*final(self)).spec_last_scan() == old(self).spec_last_scan()
                &&& actions@ =~= Seq::<WmAction>::empty()
            },
    {
        if connected {
            let p = match &self.pending {
                Some(p) => p,
                None => {
                    proof {
                        assert(false);
                    }
                    return Vec::new();
                },
            };
            let res = store.save(p);
            proof {
                assert(res is Ok);
            }
            self.connected = self.pending.take();
            self.state = ConnectionState::Reconnected;
            let mut actions: Vec<WmAction> = Vec::new();
            actions.push(WmAction::StopDhcp);
            actions.push(WmAction::SignalEnd);
            actions
        } else {
            self.pending = None;
            self.state = ConnectionState::Provisioning;
            Vec::new()
        }
    }

    /// A later mirror of the store to the hardware failed: the save is
    /// treated as if it had not happened — back to provisioning, in
    /// access-point mode, so the human may retry.
    pub fn on_store_error(&mut self, now: u64) -> (actions: Vec<WmAction>)
        requires
            old(self).wf(),
            old(self).spec_state() is Reconnected,
        ensures
            (*final(self)).wf(),
            (*final(self)).spec_state() is Provisioning,
            (*final(self)).spec_connected() is None,
            (*final(self)).spec_pending() is None,
            (*final(self)).spec_settings() == old(self).spec_settings(),
            actions@ =~= seq![WmAction::StartAccessPoint, WmAction::StartHttpServer],
    {
        self.state = ConnectionState::Provisioning;
        self.connected = None;
        self.enter_provisioning(now)
    }

    /// What remains once the routine has reconnected: a restart when the
    /// caller asked for a clean boot into client mode, nothing otherwise.
    pub fn completion_actions(&self) -> (actions: Vec<WmAction>)
        requires
            self.spec_state() is Reconnected,
        ensures
            self.spec_settings().esp_restart_after_connection ==> actions@ =~= seq![
                WmAction::Restart,
            ],
            !self.spec_settings().esp_restart_after_connection ==> actions@ =~= Seq::<
                WmAction,
            >::empty(),
    {
        let mut actions: Vec<WmAction> = Vec::new();
        if self.settings.esp_restart_after_connection {
            actions.push(WmAction::Restart);
        }
        actions
    }

    /// The settings the routine runs with, for the driver's access-point
    /// and timer plumbing.
    pub fn settings(&self) -> (r: &WmSettings)
        ensures
            *r == self.spec_settings(),
    {
        &self.settings
    }

    /// The current state, for the driver's control flow.
    pub fn state(&self) -> (r: ConnectionState)
        ensures
            r == self.spec_state(),
    {
        self.state
    }

    /// Hands out the connected credentials, ending the machine's ownership.
    pub fn into_connected(self) -> (r: Option<AutoSetupSettings>)
        ensures
            r == self.spec_connected(),
    {
        self.connected
    }
}

/// What the reconnection task observes while keeping the link alive.
#[derive(Clone, Copy, Debug, PartialEq, Eq, Structural)]
pub enum LinkEvent {
    /// The station lost its connection.
    StaDisconnected,
    /// The stop signal fired: `true` asks the radio to halt, `false` asks a
    /// halted radio to resume.
    StopRequest(bool),
    /// A reconnection attempt finished, successfully or not.
    ConnectResult(bool),
}

/// What the reconnection task does in response, in the order given.
#[derive(Clone, Copy, Debug, PartialEq, Eq, Structural)]
pub enum LinkAction {
    /// Disconnect from the network.
    Disconnect,
    /// Stop the radio.
    StopRadio,
    /// Start the radio again.
    StartRadio,
    /// Attempt a connection.
    Connect,
    /// Wait the configured reconnect time first.
    Delay,
}

/// The link as the reconnection task models it.
#[derive(Clone, Copy, Debug, PartialEq, Eq, Structural)]
pub enum LinkState {
    /// Connected; waiting for a disconnect or a stop.
    Online,
    /// Not connected; attempting to reconnect.
    Offline,
    /// Radio stopped on request; waiting for the resume signal.
    Halted,
}

/// One decision of the reconnection task: from state and event to next state
/// and actions.
pub open spec fn spec_link_step(s: LinkState, e: LinkEvent) -> (LinkState, Seq<LinkAction>) {
    match (s, e) {
        (LinkState::Online, LinkEvent::StaDisconnected) => (
            LinkState::Offline,
            seq![LinkAction::Delay, LinkAction::Connect],
        ),
        (LinkState::Online, LinkEvent::StopRequest(true)) => (
            LinkState::Halted,
            seq![LinkAction::Disconnect, LinkAction::StopRadio],
        ),
        (LinkState::Online, LinkEvent::StopRequest(false)) => (LinkState::Online, Seq::empty()),
        (LinkState::Online, LinkEvent::ConnectResult(_)) => (LinkState::Online, Seq::empty()),
        (LinkState::Offline, LinkEvent::StaDisconnected) => (LinkState::Offline, Seq::empty()),
        (LinkState::Offline, LinkEvent::StopRequest(true)) => (
            LinkState::Halted,
            seq![LinkAction::Disconnect, LinkAction::StopRadio],
        ),
        (LinkState::Offline, LinkEvent::StopRequest(false)) => (LinkState::Offline, Seq::empty()),
        (LinkState::Offline, LinkEvent::ConnectResult(true)) => (LinkState::Online, Seq::empty()),
        (LinkState::Offline, LinkEvent::ConnectResult(false)) => (
            LinkState::Offline,
            seq![LinkAction::Delay, LinkAction::Connect],
        ),
        (LinkState::Halted, LinkEvent::StopRequest(false)) => (
            LinkState::Offline,
            seq![LinkAction::StartRadio, LinkAction::Connect],
        ),
        (LinkState::Halted, _) => (LinkState::Halted, Seq::empty()),
    }
}

/// The reconnection task's state machine: reconnects with backoff after a
/// disconnect, and stops and restarts the radio on request.
pub struct ReconnectMonitor {
    state: LinkState,
}

impl ReconnectMonitor {
    pub closed spec fn spec_state(self) -> LinkState {
        self.state
    }

    /// A fresh monitor: not yet connected, so the driver's first action is a
    /// connection attempt.
    pub fn new() -> (r: ReconnectMonitor)
        ensures
            r.spec_state() is Offline,
    {
        ReconnectMonitor { state: LinkState::Offline }
    }

    /// Feeds one event through [`spec_link_step`].
    pub fn step(&mut self, event: LinkEvent) -> (actions: Vec<LinkAction>)
        ensures
            (*final(self)).spec_state() == spec_link_step(old(self).spec_state(), event).0,
            actions@ == spec_link_step(old(self).spec_state(), event).1,
    {
        let mut actions: Vec<LinkAction> = Vec::new();
        match (self.state, event) {
            (LinkState::Online, LinkEvent::StaDisconnected) => {
                self.state = LinkState::Offline;
                actions.push(LinkAction::Delay);
                actions.push(LinkAction::Connect);
            },
            (LinkState::Online, LinkEvent::StopRequest(true)) => {
                self.state = LinkState::Halted;
                actions.push(LinkAction::Disconnect);
                actions.push(LinkAction::StopRadio);
            },
            (LinkState::Online, _) => {},
            (LinkState::Offline, LinkEvent::StopRequest(true)) => {
                self.state = LinkState::Halted;
                actions.push(LinkAction::Disconnect);
                actions.push(LinkAction::StopRadio);
            },
            (LinkState::Offline, LinkEvent::ConnectResult(true)) => {
                self.state = LinkState::Online;
            },
            (LinkState::Offline, LinkEvent::ConnectResult(false)) => {
                actions.push(LinkAction::Delay);
                actions.push(LinkAction::Connect);
            },
            (LinkState::Offline, _) => {},
            (LinkState::Halted, LinkEvent::StopRequest(false)) => {
                self.state = LinkState::Offline;
                actions.push(LinkAction::StartRadio);
                actions.push(LinkAction::Connect);
            },
            (LinkState::Halted, _) => {},
        }
        proof {
            assert(actions@ =~= spec_link_step(old(self).spec_state(), event).1);
        }
        actions
    }
}

/// A fresh copy of a credential record, equal to it field by field.
fn clone_record(s: &AutoSetupSettings) -> (r: AutoSetupSettings)
    ensures
        r.ssid@ == s.ssid@,
        r.password@ == s.password@,
{
    let ssid = copy_vec(&s.ssid);
    let password = copy_vec(&s.password);
    AutoSetupSettings { ssid, password }
}

/// A fresh copy of a byte vector.
fn copy_vec(v: &Vec<u8>) -> (r: Vec<u8>)
    ensures
        r@ == v@,
{
    let mut out: Vec<u8> = Vec::new();
    let mut k: usize = 0;
    while k < v.len()
        invariant
            0 <= k <= v@.len(),
            out@ == v@.subrange(0, k as int),
        decreases v@.len() - k,
    {
        out.push(v[k]);
        k = k + 1;
        proof {
            assert(out@ =~= v@.subrange(0, k as int));
        }
    }
    proof {
        assert(out@ =~= v@);
    }
    out
}

} // verus!
