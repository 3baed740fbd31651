//! The captive portal routes and the scan-result rendering they serve.

use wificlock::wifimanager::bus::WmInnerSignals;
use wificlock::wifimanager::http::{handle_portal_request, portal_page, PortalRequest, PortalResponse};
use wificlock::wifimanager::scan::{publish_scan_results, render_scan, ScanRecord};

fn network(ssid: &str, signal_strength: i8) -> ScanRecord {
    ScanRecord { ssid: ssid.as_bytes().to_vec(), signal_strength }
}

#[test]
fn root_serves_the_page() {
    let mut bus = WmInnerSignals::new();
    let r = handle_portal_request(&mut bus, PortalRequest::Root);
    assert_eq!(r, PortalResponse::Page);
    assert!(portal_page().contains("/setup"));
    assert!(portal_page().contains("ssid"));
}

#[test]
fn list_serves_current_scan_text() {
    let mut bus = WmInnerSignals::new();
    publish_scan_results(&mut bus, &vec![network("homenet", -42)]);
    let r = handle_portal_request(&mut bus, PortalRequest::List);
    assert_eq!(r, PortalResponse::ScanList(b"homenet: -42\n".to_vec()));
}

#[test]
fn setup_forwards_body_to_the_bus() {
    let mut bus = WmInnerSignals::new();
    let r = handle_portal_request(&mut bus, PortalRequest::Setup(b"raw body".to_vec()));
    assert_eq!(r, PortalResponse::Accepted);
    assert_eq!(bus.take_submission(), Some(b"raw body".to_vec()));
}

#[test]
fn setup_overwrites_unconsumed_submission() {
    let mut bus = WmInnerSignals::new();
    handle_portal_request(&mut bus, PortalRequest::Setup(b"first".to_vec()));
    handle_portal_request(&mut bus, PortalRequest::Setup(b"second".to_vec()));
    assert_eq!(bus.take_submission(), Some(b"second".to_vec()));
    assert_eq!(bus.take_submission(), None);
}

#[test]
fn render_one_line_per_network() {
    let records = vec![network("homenet", -42), network("cafe", 7)];
    assert_eq!(render_scan(&records), b"homenet: -42\ncafe: 7\n".to_vec());
}

#[test]
fn render_no_networks_is_empty() {
    assert_eq!(render_scan(&Vec::new()), Vec::<u8>::new());
}

#[test]
fn render_signal_strength_extremes() {
    let records = vec![
        network("a", -128),
        network("b", -1),
        network("c", 0),
        network("d", 100),
        network("e", 127),
    ];
    assert_eq!(
        render_scan(&records),
        b"a: -128\nb: -1\nc: 0\nd: 100\ne: 127\n".to_vec()
    );
}

#[test]
fn publish_skips_while_write_in_progress() {
    let mut bus = WmInnerSignals::new();
    publish_scan_results(&mut bus, &vec![network("old", 1)]);
    assert!(bus.try_begin_scan_write());
    // Another publication never blocks; it is silently dropped.
    publish_scan_results(&mut bus, &vec![network("new", 2)]);
    bus.finish_scan_write(b"old: 1\n".to_vec());
    assert_eq!(bus.read_scan_results(), b"old: 1\n".to_vec());
}

#[test]
fn publish_overwrites_previous_text() {
    let mut bus = WmInnerSignals::new();
    publish_scan_results(&mut bus, &vec![network("one", 1)]);
    publish_scan_results(&mut bus, &vec![network("two", 2)]);
    assert_eq!(bus.read_scan_results(), b"two: 2\n".to_vec());
}
