//! The time-synchronisation arithmetic.

use wificlock::timesync::{micros_to_secs, micros_to_subsec_micros, ntp_to_micros};

#[test]
fn micros_split_into_seconds_and_remainder() {
    assert_eq!(micros_to_secs(0), 0);
    assert_eq!(micros_to_secs(999_999), 0);
    assert_eq!(micros_to_secs(1_000_000), 1);
    assert_eq!(micros_to_secs(1_234_567_890), 1234);
    assert_eq!(micros_to_subsec_micros(0), 0);
    assert_eq!(micros_to_subsec_micros(999_999), 999_999);
    assert_eq!(micros_to_subsec_micros(1_000_000), 0);
    assert_eq!(micros_to_subsec_micros(1_234_567_890), 567_890);
}

#[test]
fn ntp_time_converts_to_micros() {
    assert_eq!(ntp_to_micros(0, 0), 0);
    assert_eq!(ntp_to_micros(1, 0), 1_000_000);
    // A half-second binary fraction is half a million microseconds.
    assert_eq!(ntp_to_micros(1, 0x8000_0000), 1_500_000);
    // A quarter second.
    assert_eq!(ntp_to_micros(0, 0x4000_0000), 250_000);
    // The largest fraction stays strictly below the next second.
    assert_eq!(ntp_to_micros(0, 0xffff_ffff), 999_999);
    // The largest epoch second still fits.
    assert_eq!(ntp_to_micros(u32::MAX, 0), 4_294_967_295_000_000);
}

#[test]
fn clock_round_trip_without_fraction() {
    let us = ntp_to_micros(1_700_000_000u32 as u32, 0);
    assert_eq!(micros_to_secs(us), 1_700_000_000);
    assert_eq!(micros_to_subsec_micros(us), 0);
}
