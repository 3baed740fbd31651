//! Shared data types of the provisioning manager: the persisted credential
//! record and its wire format, the run-time settings, and the error kinds.
//!
//! A credential record is persisted as a single JSON object
//! `{"ssid":"...","password":"..."}` whose string contents are restricted to
//! plain printable ASCII (no quotes, no backslashes, no control bytes), so
//! the encoding needs no escaping and every record has exactly one encoding.

use vstd::prelude::*;

verus! {

/// Largest SSID accepted in a credential record, in bytes.
pub const MAX_SSID_LEN: usize = 32;

/// Largest passphrase accepted in a credential record, in bytes.
pub const MAX_PASSWORD_LEN: usize = 64;

/// A byte that may appear inside one of the quoted strings of the wire
/// format: printable ASCII, excluding the quote and the backslash.
pub open spec fn plain_byte(b: u8) -> bool {
    0x20 <= b <= 0x7e && b != 0x22 && b != 0x5c
}

/// All bytes of `s` are plain.
pub open spec fn plain_bytes(s: Seq<u8>) -> bool {
    forall|i: int| 0 <= i < s.len() ==> plain_byte(#[trigger] s[i])
}

/// A well-formed credential record: a non-empty SSID of at most
/// [`MAX_SSID_LEN`] plain bytes and a passphrase of at most
/// [`MAX_PASSWORD_LEN`] plain bytes.
pub open spec fn wf_record(ssid: Seq<u8>, password: Seq<u8>) -> bool {
    &&& 1 <= ssid.len() <= MAX_SSID_LEN
    &&& password.len() <= MAX_PASSWORD_LEN
    &&& plain_bytes(ssid)
    &&& plain_bytes(password)
}

/// The bytes of `{"ssid":"`.
pub open spec fn key_prefix() -> Seq<u8> {
    seq![0x7bu8, 0x22, 0x73, 0x73, 0x69, 0x64, 0x22, 0x3a, 0x22]
}

/// The bytes of `","password":"`.
pub open spec fn key_mid() -> Seq<u8> {
    seq![0x22u8, 0x2c, 0x22, 0x70, 0x61, 0x73, 0x73, 0x77, 0x6f, 0x72, 0x64, 0x22, 0x3a, 0x22]
}

/// The bytes of `"}`.
pub open spec fn key_suffix() -> Seq<u8> {
    seq![0x22u8, 0x7d]
}

/// The unique serialized form of a credential record.
pub open spec fn json_bytes(ssid: Seq<u8>, password: Seq<u8>) -> Seq<u8> {
    key_prefix() + ssid + key_mid() + password + key_suffix()
}

/// `b` is the wire form of some well-formed record.
pub open spec fn is_record(b: Seq<u8>) -> bool {
    exists|ss: Seq<u8>, pp: Seq<u8>| wf_record(ss, pp) && b == #[trigger] json_bytes(ss, pp)
}

/// The record whose wire form `b` is; meaningful only when [`is_record`]
/// holds, and then unique by [`lemma_json_bytes_injective`].
pub open spec fn record_of(b: Seq<u8>) -> (Seq<u8>, Seq<u8>) {
    choose|ss: Seq<u8>, pp: Seq<u8>| wf_record(ss, pp) && b == #[trigger] json_bytes(ss, pp)
}

/// Two well-formed records with the same wire form are the same record: the
/// serialization is injective, so a stored payload determines its record.
pub proof fn lemma_json_bytes_injective(s1: Seq<u8>, p1: Seq<u8>, s2: Seq<u8>, p2: Seq<u8>)
    requires
        wf_record(s1, p1),
        wf_record(s2, p2),
        json_bytes(s1, p1) == json_bytes(s2, p2),
    ensures
        s1 == s2,
        p1 == p2,
{
    let b = json_bytes(s1, p1);
    assert(b.len() == 25 + s1.len() + p1.len());
    assert(b.len() == 25 + s2.len() + p2.len());
    if s1.len() < s2.len() {
        assert(b[9 + s1.len() as int] == key_mid()[0]);
        assert(b[9 + s1.len() as int] == s2[s1.len() as int]);
        assert(plain_byte(s2[s1.len() as int]));
        assert(false);
    }
    if s2.len() < s1.len() {
        assert(b[9 + s2.len() as int] == key_mid()[0]);
        assert(b[9 + s2.len() as int] == s1[s2.len() as int]);
        assert(plain_byte(s1[s2.len() as int]));
        assert(false);
    }
    assert forall|k: int| 0 <= k < s1.len() implies s1[k] == s2[k] by {
        assert(b[9 + k] == s1[k]);
        assert(b[9 + k] == s2[k]);
    }
    assert(s1 =~= s2);
    assert forall|k: int| 0 <= k < p1.len() implies p1[k] == p2[k] by {
        assert(b[23 + s1.len() + k] == p1[k]);
        assert(b[23 + s2.len() + k] == p2[k]);
    }
    assert(p1 =~= p2);
}

/// The wire form of a well-formed record parses back to that record and to
/// no other.
pub proof fn lemma_record_of_json_bytes(ss: Seq<u8>, pp: Seq<u8>)
    requires
        wf_record(ss, pp),
    ensures
        is_record(json_bytes(ss, pp)),
        record_of(json_bytes(ss, pp)) == (ss, pp),
{
    let b = json_bytes(ss, pp);
    assert(wf_record(ss, pp) && b == json_bytes(ss, pp));
    let (s2, p2): (Seq<u8>, Seq<u8>) = record_of(b);
    assert(wf_record(s2, p2) && b == json_bytes(s2, p2));
    lemma_json_bytes_injective(ss, pp, s2, p2);
}

/// The error kinds of the provisioning manager.  Only a radio that cannot be
/// brought up is fatal to the whole routine; every other kind is absorbed by
/// staying in provisioning.
#[derive(Clone, Copy, Debug, PartialEq, Eq, Structural)]
pub enum WmError {
    /// The radio controller could not be initialised; surfaced to the caller.
    RadioInit,
    /// The credential store could not be written; the save is treated as if
    /// it had not happened.
    Store,
    /// A connection attempt did not complete within the configured timeout.
    ConnectionTimeout,
    /// The target network refused the connection attempt.
    ConnectionRejected,
    /// A portal submission could not be parsed; it is ignored.
    MalformedSubmission,
    /// Provisioning never completed within the hard-reset timeout.
    ProvisioningTimeout,
}

impl WmError {
    /// Propagation policy: only radio bring-up failure aborts the routine.
    pub fn is_fatal(&self) -> (r: bool)
        ensures
            r == (*self is RadioInit),
    {
        match self {
            WmError::RadioInit => true,
            _ => false,
        }
    }
}

/// Caller-supplied settings of the provisioning manager, immutable for the
/// run.
pub struct WmSettings {
    /// Name of the fallback access point.
    pub ssid: Vec<u8>,
    /// Bound on each client connection attempt, in milliseconds.
    pub wifi_conn_timeout: u64,
    /// Period of the background network scan, in milliseconds.
    pub wifi_scan_interval: u64,
    /// Delay between reconnection attempts after provisioning, in
    /// milliseconds.
    pub wifi_reconnect_time: u64,
    /// Hard-reset fail-safe: restart the device if provisioning has not
    /// completed within this many milliseconds.
    pub esp_reset_timeout: Option<u64>,
    /// Restart the device after the first successful provisioning.
    pub esp_restart_after_connection: bool,
}

impl Default for WmSettings {
    fn default() -> (r: WmSettings)
        ensures
            r.ssid@.len() == 0,
            r.wifi_conn_timeout == 15000,
            r.wifi_scan_interval == 15000,
            r.wifi_reconnect_time == 1000,
            r.esp_reset_timeout is None,
            !r.esp_restart_after_connection,
    {
        WmSettings {
            ssid: Vec::new(),
            wifi_conn_timeout: 15000,
            wifi_scan_interval: 15000,
            wifi_reconnect_time: 1000,
            esp_reset_timeout: None,
            esp_restart_after_connection: false,
        }
    }
}

/// A previously learned network identity, as persisted by the credential
/// store and as submitted through the captive portal.
#[derive(Clone, Debug, PartialEq, Eq)]
pub struct AutoSetupSettings {
    pub ssid: Vec<u8>,
    pub password: Vec<u8>,
}

impl AutoSetupSettings {
    /// The record is well formed: see [`wf_record`].
    pub open spec fn wf(self) -> bool {
        wf_record(self.ssid@, self.password@)
    }

    pub fn new(ssid: Vec<u8>, password: Vec<u8>) -> (r: AutoSetupSettings)
        ensures
            r.ssid@ == ssid@,
            r.password@ == password@,
    {
        AutoSetupSettings { ssid, password }
    }

    /// Run-time check of [`Self::wf`].
    pub fn is_wf(&self) -> (r: bool)
        ensures
            r == self.wf(),
    {
        if self.ssid.len() < 1 || self.ssid.len() > MAX_SSID_LEN {
            return false;
        }
        if self.password.len() > MAX_PASSWORD_LEN {
            return false;
        }
        all_plain(&self.ssid) && all_plain(&self.password)
    }

    /// Serializes the record into its unique wire form.
    pub fn to_json(&self) -> (r: Vec<u8>)
        ensures
            r@ == json_bytes(self.ssid@, self.password@),
    {
        let mut out = key_prefix_vec();
        push_bytes(&mut out, &self.ssid);
        let mid = key_mid_vec();
        push_bytes(&mut out, &mid);
        push_bytes(&mut out, &self.password);
        let suffix = key_suffix_vec();
        push_bytes(&mut out, &suffix);
        proof {
            assert(out@ =~= json_bytes(self.ssid@, self.password@));
        }
        out
    }

    /// Parses a serialized record.  Returns the record exactly when the input
    /// is the wire form of a well-formed record, and `None` on any other
    /// input.
    pub fn from_json(b: &[u8]) -> (r: Option<AutoSetupSettings>)
        ensures
            match r {
                Some(s) => s.wf() && b@ == json_bytes(s.ssid@, s.password@),
                None => forall|ss: Seq<u8>, pp: Seq<u8>|
                    wf_record(ss, pp) ==> b@ != #[trigger] json_bytes(ss, pp),
            },
    {
        let prefix = key_prefix_vec();
        if !match_at(b, 0, &prefix) {
            proof {
                assert forall|ss: Seq<u8>, pp: Seq<u8>| wf_record(ss, pp) implies b@
                    != #[trigger] json_bytes(ss, pp) by {
                    if b@ == json_bytes(ss, pp) {
                        assert(b@.subrange(0, 9) =~= key_prefix());
                    }
                }
            }
            return None;
        }
        let i_opt = scan_nonplain(b, 9);
        proof {
            assert forall|ss: Seq<u8>, pp: Seq<u8>|
                wf_record(ss, pp) && b@ == json_bytes(ss, pp) implies b@[9 + ss.len() as int] == 0x22
                && 9 + ss.len() < b@.len() && (forall|k: int|
                9 <= k < 9 + ss.len() ==> plain_byte(#[trigger] b@[k])) by {
                assert(b@[9 + ss.len() as int] == key_mid()[0]);
                assert forall|k: int| 9 <= k < 9 + ss.len() implies plain_byte(
                    #[trigger] b@[k],
                ) by {
                    assert(b@[k] == ss[k - 9]);
                }
            }
        }
        let i = match i_opt {
            Some(i) => i,
            None => {
                return None;
            },
        };
        if b[i] != 0x22 {
            return None;
        }
        // A quote preceded by plain bytes: in any encoding it closes the SSID.
        proof {
            assert forall|ss: Seq<u8>, pp: Seq<u8>|
                wf_record(ss, pp) && b@ == json_bytes(ss, pp) implies i == 9 + ss.len() by {
                if i < 9 + ss.len() {
                    assert(b@[i as int] == ss[i - 9]);
                }
                if i > 9 + ss.len() {
                    assert(!plain_byte(b@[9 + ss.len() as int]));
                }
            }
        }
        if i - 9 < 1 || i - 9 > MAX_SSID_LEN {
            return None;
        }
        let mid = key_mid_vec();
        if !match_at(b, i, &mid) {
            proof {
                assert forall|ss: Seq<u8>, pp: Seq<u8>| wf_record(ss, pp) implies b@
                    != #[trigger] json_bytes(ss, pp) by {
                    if b@ == json_bytes(ss, pp) {
                        assert(b@.subrange(i as int, i as int + 14) =~= key_mid());
                    }
                }
            }
            return None;
        }
        let j0 = i + 14;
        let j_opt = scan_nonplain(b, j0);
        proof {
            assert forall|ss: Seq<u8>, pp: Seq<u8>|
                wf_record(ss, pp) && b@ == json_bytes(ss, pp) implies b@[j0 + pp.len() as int] == 0x22
                && j0 + pp.len() < b@.len() && (forall|k: int|
                j0 <= k < j0 + pp.len() ==> plain_byte(#[trigger] b@[k])) by {
                assert(b@.len() == 25 + ss.len() + pp.len());
                assert(b@[j0 + pp.len() as int] == key_suffix()[0]);
                assert forall|k: int| j0 <= k < j0 + pp.len() implies plain_byte(
                    #[trigger] b@[k],
                ) by {
                    assert(b@[k] == pp[k - j0]);
                }
            }
        }
        let j = match j_opt {
            Some(j) => j,
            None => {
                return None;
            },
        };
        if b[j] != 0x22 {
            return None;
        }
        proof {
            assert forall|ss: Seq<u8>, pp: Seq<u8>|
                wf_record(ss, pp) && b@ == json_bytes(ss, pp) implies j == j0 + pp.len() by {
                if j < j0 + pp.len() {
                    assert(b@[j as int] == pp[j - j0]);
                }
                if j > j0 + pp.len() {
                    assert(!plain_byte(b@[j0 + pp.len() as int]));
                }
            }
        }
        if j - j0 > MAX_PASSWORD_LEN {
            return None;
        }
        let suffix = key_suffix_vec();
        if !match_at(b, j, &suffix) || j + 2 != b.len() {
            proof {
                assert forall|ss: Seq<u8>, pp: Seq<u8>| wf_record(ss, pp) implies b@
                    != #[trigger] json_bytes(ss, pp) by {
                    if b@ == json_bytes(ss, pp) {
                        assert(b@.len() == 25 + ss.len() + pp.len());
                        assert(b@.subrange(j as int, j as int + 2) =~= key_suffix());
                    }
                }
            }
            return None;
        }
        let ssid = copy_range(b, 9, i);
        let password = copy_range(b, j0, j);
        proof {
            assert(b@ =~= json_bytes(b@.subrange(9, i as int), b@.subrange(j0 as int, j as int)));
        }
        Some(AutoSetupSettings { ssid, password })
    }
}

/// True exactly when `pat` occurs in `b` at position `pos`.
fn match_at(b: &[u8], pos: usize, pat: &Vec<u8>) -> (r: bool)
    requires
        pos <= b@.len(),
    ensures
        r == (pos + pat@.len() <= b@.len() && b@.subrange(
            pos as int,
            pos as int + pat@.len(),
        ) == pat@),
{
    let n = b.len();
    if n - pos < pat.len() {
        return false;
    }
    let mut k: usize = 0;
    while k < pat.len()
        invariant
            0 <= k <= pat@.len(),
            n == b@.len(),
            pos + pat@.len() <= b@.len(),
            forall|m: int| 0 <= m < k ==> b@[pos + m] == #[trigger] pat@[m],
        decreases pat@.len() - k,
    {
        if b[pos + k] != pat[k] {
            proof {
                assert(b@.subrange(pos as int, pos as int + pat@.len())[k as int] != pat@[
                k as int]);
            }
            return false;
        }
        k = k + 1;
    }
    proof {
        assert(b@.subrange(pos as int, pos as int + pat@.len()) =~= pat@);
    }
    true
}

/// Finds the first position at or after `from` holding a byte that is not
/// [`plain_byte`]; `None` when every byte to the end is plain.
fn scan_nonplain(b: &[u8], from: usize) -> (r: Option<usize>)
    requires
        from <= b@.len(),
    ensures
        match r {
            Some(i) => from <= i < b@.len() && !plain_byte(b@[i as int]) && (forall|k: int|
                from <= k < i ==> plain_byte(#[trigger] b@[k])),
            None => forall|k: int| from <= k < b@.len() ==> plain_byte(#[trigger] b@[k]),
        },
{
    let mut i: usize = from;
    while i < b.len()
        invariant
            from <= i <= b@.len(),
            forall|k: int| from <= k < i ==> plain_byte(#[trigger] b@[k]),
        decreases b@.len() - i,
    {
        if !is_plain_byte(b[i]) {
            return Some(i);
        }
        i = i + 1;
    }
    None
}

/// Copies `b[from..to]` into a fresh vector.
fn copy_range(b: &[u8], from: usize, to: usize) -> (r: Vec<u8>)
    requires
        from <= to <= b@.len(),
    ensures
        r@ == b@.subrange(from as int, to as int),
{
    let mut out: Vec<u8> = Vec::new();
    let mut k: usize = from;
    while k < to
        invariant
            from <= k <= to <= b@.len(),
            out@ == b@.subrange(from as int, k as int),
        decreases to - k,
    {
        out.push(b[k]);
        k = k + 1;
        proof {
            assert(out@ =~= b@.subrange(from as int, k as int));
        }
    }
    out
}

/// Appends every byte of `s` to `out`.
fn push_bytes(out: &mut Vec<u8>, s: &Vec<u8>)
    ensures
        (*final(out))@ == old(out)@ + s@,
{
    let mut i: usize = 0;
    while i < s.len()
        invariant
            0 <= i <= s@.len(),
            out@ == old(out)@ + s@.subrange(0, i as int),
        decreases s@.len() - i,
    {
        out.push(s[i]);
        i = i + 1;
        proof {
            assert(out@ =~= old(out)@ + s@.subrange(0, i as int));
        }
    }
    proof {
        assert(out@ =~= old(out)@ + s@);
    }
}

/// The bytes of [`key_prefix`] as a vector.
fn key_prefix_vec() -> (r: Vec<u8>)
    ensures
        r@ == key_prefix(),
{
    let mut v: Vec<u8> = Vec::new();
    v.push(0x7b);
    v.push(0x22);
    v.push(0x73);
    v.push(0x73);
    v.push(0x69);
    v.push(0x64);
    v.push(0x22);
    v.push(0x3a);
    v.push(0x22);
    proof {
        assert(v@ =~= key_prefix());
    }
    v
}

/// The bytes of [`key_mid`] as a vector.
fn key_mid_vec() -> (r: Vec<u8>)
    ensures
        r@ == key_mid(),
{
    let mut v: Vec<u8> = Vec::new();
    v.push(0x22);
    v.push(0x2c);
    v.push(0x22);
    v.push(0x70);
    v.push(0x61);
    v.push(0x73);
    v.push(0x73);
    v.push(0x77);
    v.push(0x6f);
    v.push(0x72);
    v.push(0x64);
    v.push(0x22);
    v.push(0x3a);
    v.push(0x22);
    proof {
        assert(v@ =~= key_mid());
    }
    v
}

/// The bytes of [`key_suffix`] as a vector.
fn key_suffix_vec() -> (r: Vec<u8>)
    ensures
        r@ == key_suffix(),
{
    let mut v: Vec<u8> = Vec::new();
    v.push(0x22);
    v.push(0x7d);
    proof {
        assert(v@ =~= key_suffix());
    }
    v
}

/// Run-time check of [`plain_byte`].
pub fn is_plain_byte(b: u8) -> (r: bool)
    ensures
        r == plain_byte(b),
{
    0x20 <= b && b <= 0x7e && b != 0x22 && b != 0x5c
}

/// Run-time check of [`plain_bytes`].
pub fn all_plain(s: &Vec<u8>) -> (r: bool)
    ensures
        r == plain_bytes(s@),
{
    let mut i: usize = 0;
    while i < s.len()
        invariant
            0 <= i <= s@.len(),
            forall|k: int| 0 <= k < i ==> plain_byte(#[trigger] s@[k]),
        decreases s@.len() - i,
    {
        if !is_plain_byte(s[i]) {
            return false;
        }
        i = i + 1;
    }
    true
}

} // verus!
