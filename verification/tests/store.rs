//! The credential store: round trips, empty and corrupt windows, and the
//! wire format of the record.

use wificlock::wifimanager::nvs::{Nvs, SavedSettings, STORE_SIZE};
use wificlock::wifimanager::structs::{AutoSetupSettings, WmError};

fn record(ssid: &str, password: &str) -> AutoSetupSettings {
    AutoSetupSettings::new(ssid.as_bytes().to_vec(), password.as_bytes().to_vec())
}

#[test]
fn round_trip_save_load() {
    let mut store = SavedSettings::new().unwrap();
    let rec = record("homenet", "hunter2!");
    store.save(&rec).unwrap();
    let loaded = store.load().expect("a saved record must load");
    assert_eq!(loaded, rec);
}

#[test]
fn round_trip_shortest_record() {
    let mut store = SavedSettings::new().unwrap();
    let rec = record("a", "");
    store.save(&rec).unwrap();
    assert_eq!(store.load(), Some(rec));
}

#[test]
fn round_trip_longest_record() {
    let mut store = SavedSettings::new().unwrap();
    let ssid: String = "s".repeat(32);
    let password: String = "p".repeat(64);
    let rec = record(&ssid, &password);
    store.save(&rec).unwrap();
    assert_eq!(store.load(), Some(rec));
}

#[test]
fn load_fresh_store_is_none() {
    let mut store = SavedSettings::new().unwrap();
    assert_eq!(store.load(), None);
}

#[test]
fn load_all_zero_window_is_none() {
    let mut store = SavedSettings::with_contents(vec![0u8; STORE_SIZE]).unwrap();
    assert_eq!(store.load(), None);
}

#[test]
fn load_garbage_without_sentinel_is_none() {
    let mut store = SavedSettings::with_contents(vec![0xabu8; STORE_SIZE]).unwrap();
    assert_eq!(store.load(), None);
}

#[test]
fn load_garbage_with_sentinel_is_none() {
    let mut contents = vec![0u8; STORE_SIZE];
    for (i, b) in b"hello world".iter().enumerate() {
        contents[i] = *b;
    }
    let mut store = SavedSettings::with_contents(contents).unwrap();
    assert_eq!(store.load(), None);
}

#[test]
fn load_truncated_record_is_none() {
    let mut store = SavedSettings::new().unwrap();
    store.save(&record("homenet", "hunter2!")).unwrap();
    let mut contents = store.contents();
    // Cut the record off mid-way: the sentinel now falls inside it.
    contents[10] = 0;
    let mut cut = SavedSettings::with_contents(contents).unwrap();
    assert_eq!(cut.load(), None);
}

#[test]
fn overwrite_keeps_latest_record() {
    let mut store = SavedSettings::new().unwrap();
    store.save(&record("first", "one")).unwrap();
    store.save(&record("second", "two")).unwrap();
    assert_eq!(store.load(), Some(record("second", "two")));
}

#[test]
fn contents_mirror_round_trip() {
    let mut store = SavedSettings::new().unwrap();
    let rec = record("homenet", "hunter2!");
    store.save(&rec).unwrap();
    let mirrored = store.contents();
    assert_eq!(mirrored.len(), STORE_SIZE);
    let mut booted = SavedSettings::with_contents(mirrored).unwrap();
    assert_eq!(booted.load(), Some(rec));
}

#[test]
fn save_rejects_empty_ssid() {
    let mut store = SavedSettings::new().unwrap();
    assert_eq!(store.save(&record("", "pw")), Err(WmError::Store));
    assert_eq!(store.load(), None);
}

#[test]
fn save_rejects_oversize_ssid() {
    let mut store = SavedSettings::new().unwrap();
    let ssid: String = "s".repeat(33);
    assert_eq!(store.save(&record(&ssid, "pw")), Err(WmError::Store));
}

#[test]
fn save_rejects_oversize_password() {
    let mut store = SavedSettings::new().unwrap();
    let password: String = "p".repeat(65);
    assert_eq!(store.save(&record("net", &password)), Err(WmError::Store));
}

#[test]
fn save_rejects_quote_and_backslash() {
    let mut store = SavedSettings::new().unwrap();
    assert_eq!(store.save(&record("net\"work", "pw")), Err(WmError::Store));
    assert_eq!(store.save(&record("network", "p\\w")), Err(WmError::Store));
    assert_eq!(store.save(&record("net\nwork", "pw")), Err(WmError::Store));
}

#[test]
fn failed_save_keeps_previous_record() {
    let mut store = SavedSettings::new().unwrap();
    store.save(&record("keepme", "safe")).unwrap();
    assert_eq!(store.save(&record("", "bad")), Err(WmError::Store));
    assert_eq!(store.load(), Some(record("keepme", "safe")));
}

#[test]
fn wire_format_is_plain_json() {
    let rec = record("ab", "cd");
    assert_eq!(rec.to_json(), b"{\"ssid\":\"ab\",\"password\":\"cd\"}".to_vec());
}

#[test]
fn from_json_accepts_exact_wire_form() {
    let parsed = AutoSetupSettings::from_json(b"{\"ssid\":\"homenet\",\"password\":\"hunter2!\"}")
        .expect("the wire form must parse");
    assert_eq!(parsed, record("homenet", "hunter2!"));
}

#[test]
fn from_json_rejects_malformed_input() {
    assert_eq!(AutoSetupSettings::from_json(b""), None);
    assert_eq!(AutoSetupSettings::from_json(b"{}"), None);
    assert_eq!(AutoSetupSettings::from_json(b"{\"ssid\":\"a\"}"), None);
    assert_eq!(
        AutoSetupSettings::from_json(b"{\"ssid\":\"a\",\"password\":\"b\"} "),
        None
    );
    assert_eq!(
        AutoSetupSettings::from_json(b"{\"ssid\":\"\",\"password\":\"b\"}"),
        None
    );
    assert_eq!(
        AutoSetupSettings::from_json(b"{\"ssid\":\"a\\n\",\"password\":\"b\"}"),
        None
    );
}

#[test]
fn is_wf_matches_save_acceptance() {
    assert!(record("homenet", "hunter2!").is_wf());
    assert!(!record("", "pw").is_wf());
    assert!(!record("a\"b", "pw").is_wf());
}

#[test]
fn nvs_window_must_fit_region() {
    assert!(Nvs::new(16, 32).is_err());
    assert!(Nvs::new(32, 32).is_ok());
}

#[test]
fn nvs_write_needs_full_window() {
    let mut nvs = Nvs::new(8, 8).unwrap();
    assert_eq!(nvs.write(&[1, 2, 3]), Err(WmError::Store));
    assert_eq!(nvs.write(&[9, 8, 7, 6, 5, 4, 3, 2]), Ok(()));
    let mut buf = vec![0u8; 8];
    nvs.read(&mut buf).unwrap();
    assert_eq!(buf, vec![9, 8, 7, 6, 5, 4, 3, 2]);
}

#[test]
fn nvs_read_stops_at_window_end() {
    let mut nvs = Nvs::new(8, 4).unwrap();
    let mut big = vec![0u8; 5];
    assert_eq!(nvs.read(&mut big), Err(WmError::Store));
    let mut fit = vec![7u8; 4];
    assert_eq!(nvs.read(&mut fit), Ok(()));
    assert_eq!(fit, vec![0, 0, 0, 0]);
}
