//! The signal bus: latest-wins submissions, best-effort scan reads, and the
//! one-shot end broadcast.

use wificlock::wifimanager::bus::WmInnerSignals;

#[test]
fn fresh_bus_is_idle() {
    let mut bus = WmInnerSignals::new();
    assert!(!bus.signaled());
    assert_eq!(bus.take_submission(), None);
    assert_eq!(bus.read_scan_results(), Vec::<u8>::new());
    assert!(!bus.end_signalled());
}

#[test]
fn submission_is_taken_once() {
    let mut bus = WmInnerSignals::new();
    bus.submit(b"creds".to_vec());
    assert!(bus.signaled());
    assert_eq!(bus.take_submission(), Some(b"creds".to_vec()));
    assert!(!bus.signaled());
    assert_eq!(bus.take_submission(), None);
}

#[test]
fn latest_submission_wins() {
    let mut bus = WmInnerSignals::new();
    bus.submit(b"first".to_vec());
    bus.submit(b"second".to_vec());
    assert_eq!(bus.take_submission(), Some(b"second".to_vec()));
    assert_eq!(bus.take_submission(), None);
}

#[test]
fn scan_read_during_write_sees_empty() {
    let mut bus = WmInnerSignals::new();
    bus.try_begin_scan_write();
    bus.finish_scan_write(b"old text\n".to_vec());
    assert_eq!(bus.read_scan_results(), b"old text\n".to_vec());
    assert!(bus.try_begin_scan_write());
    // The write is in progress: a reader gets empty, never a torn value.
    assert_eq!(bus.read_scan_results(), Vec::<u8>::new());
    bus.finish_scan_write(b"new text\n".to_vec());
    assert_eq!(bus.read_scan_results(), b"new text\n".to_vec());
}

#[test]
fn second_scan_write_is_refused_while_first_runs() {
    let mut bus = WmInnerSignals::new();
    assert!(bus.try_begin_scan_write());
    assert!(!bus.try_begin_scan_write());
    bus.finish_scan_write(b"x".to_vec());
    assert!(bus.try_begin_scan_write());
    bus.finish_scan_write(Vec::new());
}

#[test]
fn end_broadcast_is_sticky() {
    let mut bus = WmInnerSignals::new();
    assert!(!bus.end_signalled());
    bus.signal_end();
    assert!(bus.end_signalled());
    assert!(bus.end_signalled());
}
