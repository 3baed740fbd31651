//! The network scanner's result rendering: one `ssid: signal_strength` line
//! per network, published to the signal bus.
//!
//! The radio produces the raw records; rendering and publication are decided
//! here.  Publication is best-effort: if another scan write is still in
//! progress the new text is silently dropped rather than blocking the
//! supervisor loop.

use vstd::prelude::*;

use crate::wifimanager::bus::{spec_begin_scan, spec_finish_scan, WmInnerSignals};

verus! {

/// The decimal digits of `n`, most significant first, no leading zeroes.
pub open spec fn dec_digits(n: nat) -> Seq<u8>
    decreases n,
{
    if n < 10 {
        seq![(0x30 + n) as u8]
    } else {
        dec_digits(n / 10) + seq![(0x30 + n % 10) as u8]
    }
}

/// The decimal form of `v`: a minus sign for negative values, then the
/// digits of the magnitude.
pub open spec fn dec_bytes(v: int) -> Seq<u8> {
    if v < 0 {
        seq![0x2du8] + dec_digits((-v) as nat)
    } else {
        dec_digits(v as nat)
    }
}

/// One rendered scan line: the SSID, a colon and a space, the signal
/// strength in decimal, and a newline.
pub open spec fn render_line(ssid: Seq<u8>, signal: i8) -> Seq<u8> {
    ssid + seq![0x3au8, 0x20u8] + dec_bytes(signal as int) + seq![0x0au8]
}

/// The whole rendered scan text: the lines of all records, in order.
pub open spec fn render_scan_spec(rs: Seq<(Seq<u8>, i8)>) -> Seq<u8>
    decreases rs.len(),
{
    if rs.len() == 0 {
        Seq::empty()
    } else {
        render_scan_spec(rs.drop_last()) + render_line(rs.last().0, rs.last().1)
    }
}

/// One network found by a radio scan.
#[derive(Clone, Debug, PartialEq, Eq)]
pub struct ScanRecord {
    /// The network's name, as raw bytes.
    pub ssid: Vec<u8>,
    /// The received signal strength.
    pub signal_strength: i8,
}

impl View for ScanRecord {
    type V = (Seq<u8>, i8);

    open spec fn view(&self) -> (Seq<u8>, i8) {
        (self.ssid@, self.signal_strength)
    }
}

/// Appends the decimal form of `v` to `out`.
fn push_dec_i8(out: &mut Vec<u8>, v: i8)
    ensures
        (*final(out))@ == old(out)@ + dec_bytes(v as int),
{
    let m: u8 = if v < 0 {
        out.push(0x2d);
        (-(v as i16)) as u8
    } else {
        v as u8
    };
    let d2: u8 = m / 100;
    let d1: u8 = (m / 10) % 10;
    let d0: u8 = m % 10;
    if m >= 100 {
        out.push(0x30 + d2);
    }
    if m >= 10 {
        out.push(0x30 + d1);
    }
    out.push(0x30 + d0);
    proof {
        if m >= 100 {
            assert(m / 10 >= 10);
            assert(m / 10 / 10 == m / 100);
            assert(dec_digits((m / 10 / 10) as nat) =~= seq![(0x30 + d2) as u8]);
            assert(dec_digits((m / 10) as nat) =~= seq![(0x30 + d2) as u8, (0x30 + d1) as u8]);
            assert(dec_digits(m as nat) =~= seq![
                (0x30 + d2) as u8,
                (0x30 + d1) as u8,
                (0x30 + d0) as u8,
            ]);
        } else if m >= 10 {
            assert(m / 10 < 10);
            assert(dec_digits((m / 10) as nat) =~= seq![(0x30 + d1) as u8]);
            assert(dec_digits(m as nat) =~= seq![(0x30 + d1) as u8, (0x30 + d0) as u8]);
        } else {
            assert(dec_digits(m as nat) =~= seq![(0x30 + d0) as u8]);
        }
        assert((*final(out))@ =~= old(out)@ + dec_bytes(v as int));
    }
}

/// Appends every byte of `s` to `out`.
fn push_all(out: &mut Vec<u8>, s: &Vec<u8>)
    ensures
        (*final(out))@ == old(out)@ + s@,
{
    let mut i: usize = 0;
    while i < s.len()
        invariant
            0 <= i <= s@.len(),
            out@ == old(out)@ + s@.subrange(0, i as int),
        decreases s@.len() - i,
    {
        out.push(s[i]);
        i = i + 1;
        proof {
            assert(out@ =~= old(out)@ + s@.subrange(0, i as int));
        }
    }
    proof {
        assert(out@ =~= old(out)@ + s@);
    }
}

/// Renders all scan records as text, one line per network.
pub fn render_scan(records: &Vec<ScanRecord>) -> (r: Vec<u8>)
    ensures
        r@ == render_scan_spec(records@.map_values(|rec: ScanRecord| rec@)),
{
    let ghost view: Seq<(Seq<u8>, i8)> = records@.map_values(|rec: ScanRecord| rec@);
    let mut out: Vec<u8> = Vec::new();
    let mut k: usize = 0;
    proof {
        assert(out@ =~= render_scan_spec(view.take(0)));
    }
    while k < records.len()
        invariant
            0 <= k <= records@.len(),
            view == records@.map_values(|rec: ScanRecord| rec@),
            out@ == render_scan_spec(view.take(k as int)),
        decreases records@.len() - k,
    {
        let rec = &records[k];
        push_all(&mut out, &rec.ssid);
        out.push(0x3a);
        out.push(0x20);
        push_dec_i8(&mut out, rec.signal_strength);
        out.push(0x0a);
        proof {
            assert(view.take(k + 1).drop_last() =~= view.take(k as int));
            assert(view.take(k + 1).last() == view[k as int]);
            assert(out@ =~= render_scan_spec(view.take(k as int)) + render_line(
                records@[k as int].ssid@,
                records@[k as int].signal_strength,
            ));
        }
        k = k + 1;
    }
    proof {
        assert(view.take(records@.len() as int) =~= view);
    }
    out
}

/// Publishes freshly rendered scan results to the bus, silently skipping the
/// write when another one is still in progress — the supervisor loop never
/// blocks on the buffer.
pub fn publish_scan_results(bus: &mut WmInnerSignals, records: &Vec<ScanRecord>)
    ensures
        old(bus)@.scan_locked ==> *final(bus) == *old(bus),
        !old(bus)@.scan_locked ==> (*final(bus))@ == spec_finish_scan(
            spec_begin_scan(old(bus)@),
            render_scan_spec(records@.map_values(|rec: ScanRecord| rec@)),
        ),
{
    if bus.try_begin_scan_write() {
        let text = render_scan(records);
        bus.finish_scan_write(text);
    }
}

} // verus!
