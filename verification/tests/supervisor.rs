//! The supervisor state machine: stored-credential attempts, provisioning,
//! validation, persistence, the hard-reset fail-safe, and the reconnection
//! monitor.

use wificlock::wifimanager::nvs::SavedSettings;
use wificlock::wifimanager::structs::{AutoSetupSettings, WmError, WmSettings};
use wificlock::wifimanager::{
    ConnectionState, LinkAction, LinkEvent, LinkState, ReconnectMonitor, Supervisor, WmAction,
};

fn record(ssid: &str, password: &str) -> AutoSetupSettings {
    AutoSetupSettings::new(ssid.as_bytes().to_vec(), password.as_bytes().to_vec())
}

fn settings() -> WmSettings {
    WmSettings {
        ssid: b"setup-ap".to_vec(),
        wifi_conn_timeout: 30000,
        wifi_scan_interval: 1_000_000,
        esp_reset_timeout: Some(300_000),
        ..Default::default()
    }
}

#[test]
fn stored_credentials_are_attempted_first() {
    let mut sup = Supervisor::new(settings());
    let actions = sup.start(Some(record("homenet", "pw")), 0);
    assert_eq!(actions, vec![WmAction::TryConnect(record("homenet", "pw"))]);
    assert_eq!(sup.state(), ConnectionState::TryingStored);
}

#[test]
fn stored_success_ends_the_routine() {
    let mut sup = Supervisor::new(settings());
    sup.start(Some(record("homenet", "pw")), 0);
    let actions = sup.on_stored_result(true, 5000);
    assert!(actions.is_empty());
    assert_eq!(sup.state(), ConnectionState::Reconnected);
    assert_eq!(sup.into_connected(), Some(record("homenet", "pw")));
}

#[test]
fn stored_failure_enters_provisioning() {
    // A stored SSID that cannot connect within wifi_conn_timeout = 30000 ms:
    // after the attempt the supervisor is provisioning and the access point
    // is being brought up.
    let mut sup = Supervisor::new(settings());
    sup.start(Some(record("no-such-net", "pw")), 0);
    let actions = sup.on_stored_result(false, 30_000);
    assert_eq!(
        actions,
        vec![WmAction::StartAccessPoint, WmAction::StartHttpServer]
    );
    assert_eq!(sup.state(), ConnectionState::Provisioning);
}

#[test]
fn absent_credentials_mean_provisioning_not_error() {
    let mut sup = Supervisor::new(settings());
    let actions = sup.start(None, 0);
    assert_eq!(
        actions,
        vec![WmAction::StartAccessPoint, WmAction::StartHttpServer]
    );
    assert_eq!(sup.state(), ConnectionState::Provisioning);
}

#[test]
fn first_poll_scans_immediately() {
    let mut sup = Supervisor::new(settings());
    sup.start(None, 0);
    assert_eq!(sup.provisioning_poll(0, None), vec![WmAction::StartScan]);
    // Within the interval nothing else is due.
    assert_eq!(sup.provisioning_poll(100, None), vec![]);
}

#[test]
fn reset_fires_at_deadline_never_before() {
    let mut sup = Supervisor::new(settings());
    sup.start(None, 0);
    sup.provisioning_poll(0, None);
    assert_eq!(sup.provisioning_poll(299_999, None), vec![]);
    assert_eq!(sup.state(), ConnectionState::Provisioning);
    assert_eq!(sup.provisioning_poll(300_000, None), vec![WmAction::Restart]);
    assert_eq!(sup.state(), ConnectionState::ForcedReset);
}

#[test]
fn reset_fires_after_deadline_too() {
    let mut sup = Supervisor::new(settings());
    sup.start(None, 0);
    sup.provisioning_poll(0, None);
    assert_eq!(sup.provisioning_poll(412_345, None), vec![WmAction::Restart]);
}

#[test]
fn no_reset_when_not_configured() {
    let mut cfg = settings();
    cfg.esp_reset_timeout = None;
    let mut sup = Supervisor::new(cfg);
    sup.start(None, 0);
    sup.provisioning_poll(0, None);
    assert_eq!(sup.provisioning_poll(999_999, None), vec![]);
    assert_eq!(sup.provisioning_poll(10_000_000, None), vec![WmAction::StartScan]);
    assert_eq!(sup.state(), ConnectionState::Provisioning);
}

#[test]
fn submission_starts_validation() {
    let mut sup = Supervisor::new(settings());
    sup.start(None, 0);
    let body = record("cafe", "espresso").to_json();
    let actions = sup.provisioning_poll(1000, Some(body));
    assert_eq!(
        actions,
        vec![WmAction::TryConnect(record("cafe", "espresso"))]
    );
    assert_eq!(sup.state(), ConnectionState::Validating);
}

#[test]
fn submission_outranks_timers_at_the_same_tick() {
    // Whichever wake source resolved first is handled: a submission in hand
    // wins over a reset deadline that has also passed.
    let mut sup = Supervisor::new(settings());
    sup.start(None, 0);
    sup.provisioning_poll(0, None);
    let body = record("cafe", "espresso").to_json();
    let actions = sup.provisioning_poll(400_000, Some(body));
    assert_eq!(
        actions,
        vec![WmAction::TryConnect(record("cafe", "espresso"))]
    );
    assert_eq!(sup.state(), ConnectionState::Validating);
}

#[test]
fn settings_stay_readable_for_the_driver() {
    let sup = Supervisor::new(settings());
    assert_eq!(sup.settings().ssid, b"setup-ap".to_vec());
    assert_eq!(sup.settings().wifi_conn_timeout, 30_000);
    assert_eq!(sup.settings().esp_reset_timeout, Some(300_000));
}

#[test]
fn malformed_submission_is_ignored() {
    let mut sup = Supervisor::new(settings());
    sup.start(None, 0);
    let actions = sup.provisioning_poll(1000, Some(b"not a record".to_vec()));
    assert_eq!(actions, vec![]);
    assert_eq!(sup.state(), ConnectionState::Provisioning);
}

#[test]
fn successful_validation_persists_then_tears_down() {
    // The store reflects the new record, and the DHCP teardown and end
    // broadcast follow the save, in that order, before the routine returns.
    let mut sup = Supervisor::new(settings());
    let mut store = SavedSettings::new().unwrap();
    sup.start(None, 0);
    let rec = record("cafe", "espresso");
    sup.provisioning_poll(1000, Some(rec.to_json()));
    let actions = sup.on_validation_result(true, &mut store);
    assert_eq!(actions, vec![WmAction::StopDhcp, WmAction::SignalEnd]);
    assert_eq!(store.load(), Some(rec.clone()));
    assert_eq!(sup.state(), ConnectionState::Reconnected);
    assert_eq!(sup.into_connected(), Some(rec));
}

#[test]
fn failed_validation_keeps_provisioning() {
    let mut sup = Supervisor::new(settings());
    let mut store = SavedSettings::new().unwrap();
    sup.start(None, 0);
    sup.provisioning_poll(1000, Some(record("cafe", "wrong").to_json()));
    let actions = sup.on_validation_result(false, &mut store);
    assert_eq!(actions, vec![]);
    assert_eq!(sup.state(), ConnectionState::Provisioning);
    assert_eq!(store.load(), None);
    // The human may resubmit.
    let again = sup.provisioning_poll(2000, Some(record("cafe", "right").to_json()));
    assert_eq!(again.len(), 1);
    assert_eq!(sup.state(), ConnectionState::Validating);
}

#[test]
fn store_error_returns_to_provisioning() {
    let mut sup = Supervisor::new(settings());
    let mut store = SavedSettings::new().unwrap();
    sup.start(None, 0);
    sup.provisioning_poll(1000, Some(record("cafe", "espresso").to_json()));
    sup.on_validation_result(true, &mut store);
    let actions = sup.on_store_error(2000);
    assert_eq!(
        actions,
        vec![WmAction::StartAccessPoint, WmAction::StartHttpServer]
    );
    assert_eq!(sup.state(), ConnectionState::Provisioning);
}

#[test]
fn completion_restarts_only_when_asked() {
    let mut cfg = settings();
    cfg.esp_restart_after_connection = true;
    let mut sup = Supervisor::new(cfg);
    sup.start(Some(record("homenet", "pw")), 0);
    sup.on_stored_result(true, 100);
    assert_eq!(sup.completion_actions(), vec![WmAction::Restart]);

    let mut plain = Supervisor::new(settings());
    plain.start(Some(record("homenet", "pw")), 0);
    plain.on_stored_result(true, 100);
    assert_eq!(plain.completion_actions(), vec![]);
}

#[test]
fn default_settings_are_modest() {
    let cfg = WmSettings::default();
    assert_eq!(cfg.ssid, Vec::<u8>::new());
    assert_eq!(cfg.wifi_conn_timeout, 15000);
    assert_eq!(cfg.wifi_scan_interval, 15000);
    assert_eq!(cfg.wifi_reconnect_time, 1000);
    assert_eq!(cfg.esp_reset_timeout, None);
    assert!(!cfg.esp_restart_after_connection);
}

#[test]
fn only_radio_init_is_fatal() {
    assert!(WmError::RadioInit.is_fatal());
    assert!(!WmError::Store.is_fatal());
    assert!(!WmError::ConnectionTimeout.is_fatal());
    assert!(!WmError::ConnectionRejected.is_fatal());
    assert!(!WmError::MalformedSubmission.is_fatal());
    assert!(!WmError::ProvisioningTimeout.is_fatal());
}

#[test]
fn monitor_reconnects_after_disconnect() {
    let mut mon = ReconnectMonitor::new();
    assert_eq!(mon.step(LinkEvent::ConnectResult(true)), vec![]);
    let actions = mon.step(LinkEvent::StaDisconnected);
    assert_eq!(actions, vec![LinkAction::Delay, LinkAction::Connect]);
}

#[test]
fn monitor_backs_off_between_attempts() {
    let mut mon = ReconnectMonitor::new();
    let actions = mon.step(LinkEvent::ConnectResult(false));
    assert_eq!(actions, vec![LinkAction::Delay, LinkAction::Connect]);
}

#[test]
fn monitor_halts_and_resumes_on_request() {
    let mut mon = ReconnectMonitor::new();
    mon.step(LinkEvent::ConnectResult(true));
    let halt = mon.step(LinkEvent::StopRequest(true));
    assert_eq!(halt, vec![LinkAction::Disconnect, LinkAction::StopRadio]);
    // While halted, link events are ignored.
    assert_eq!(mon.step(LinkEvent::StaDisconnected), vec![]);
    let resume = mon.step(LinkEvent::StopRequest(false));
    assert_eq!(resume, vec![LinkAction::StartRadio, LinkAction::Connect]);
}

#[test]
fn link_states_are_distinct() {
    assert_ne!(LinkState::Online, LinkState::Offline);
    assert_ne!(LinkState::Offline, LinkState::Halted);
}
