//! Time-synchronisation arithmetic: converting between the device clock's
//! microsecond counter and the second/fraction form of network time.
//!
//! The network protocol reports seconds together with a binary fraction of a
//! second scaled by two to the thirty-second power; the device clock counts
//! plain microseconds.  The socket traffic and the clock hardware live in
//! the driver; the conversions are decided here.

use vstd::prelude::*;

verus! {

/// Microseconds in a second.
pub const USEC_IN_SEC: u64 = 1000000;

/// The whole seconds of a microsecond count.
pub fn micros_to_secs(us: u64) -> (r: u64)
    ensures
        r == us / 1000000,
{
    us / USEC_IN_SEC
}

/// The sub-second microseconds of a microsecond count.
pub fn micros_to_subsec_micros(us: u64) -> (r: u32)
    ensures
        r == us % 1000000,
{
    (us % USEC_IN_SEC) as u32
}

/// The device-clock microsecond count of a network time given as whole
/// seconds and a binary fraction of a second scaled by `2^32`.
pub fn ntp_to_micros(sec: u32, frac: u32) -> (r: u64)
    ensures
        r == sec * 1000000 + (frac * 1000000) / 0x100000000,
{
    let whole: u64 = (sec as u64) * USEC_IN_SEC;
    let scaled: u64 = (frac as u64) * USEC_IN_SEC;
    let part: u64 = scaled >> 32;
    proof {
        vstd::bits::lemma_u64_shr_is_div(scaled, 32);
        vstd::arithmetic::power2::lemma2_to64();
        assert(vstd::arithmetic::power2::pow2(32) == 0x100000000);
        assert(part <= scaled / 0x100000000);
        assert(scaled / 0x100000000 < 0x100000000);
    }
    whole + part
}

} // verus!
