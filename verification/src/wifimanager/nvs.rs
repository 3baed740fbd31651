//! The credential store: one serialized record inside a fixed-size window of
//! a byte-addressable persistent region.
//!
//! [`Nvs`] models the region itself: a plain byte buffer with whole-window
//! reads and writes.  [`SavedSettings`] frames a credential record in the
//! window: the payload runs up to the first zero byte (the sentinel) or to
//! the window boundary, and a payload that does not parse is the same as an
//! empty store.  The driver that owns the flash hardware mirrors the region
//! bytes to and from the chip around these calls.

use vstd::prelude::*;

use crate::wifimanager::structs::{
    is_record, json_bytes, key_mid, key_prefix, key_suffix, lemma_record_of_json_bytes, record_of,
    wf_record, AutoSetupSettings, WmError,
};

verus! {

/// Size of the credential window, in bytes.
pub const STORE_SIZE: usize = 1024;

/// Position of the first zero byte of `s`, or `s.len()` when `s` holds none.
pub open spec fn sentinel_pos(s: Seq<u8>) -> int
    decreases s.len(),
{
    if s.len() == 0 {
        0
    } else if s[0] == 0 {
        0
    } else {
        1 + sentinel_pos(s.subrange(1, s.len() as int))
    }
}

/// What the first zero byte means: everything before [`sentinel_pos`] is
/// non-zero, and the position itself holds a zero unless the whole sequence
/// is zero-free.
pub proof fn lemma_sentinel_pos(s: Seq<u8>)
    ensures
        0 <= sentinel_pos(s) <= s.len(),
        forall|k: int| 0 <= k < sentinel_pos(s) ==> s[k] != 0,
        sentinel_pos(s) < s.len() ==> s[sentinel_pos(s)] == 0,
    decreases s.len(),
{
    if s.len() > 0 && s[0] != 0 {
        let t = s.subrange(1, s.len() as int);
        lemma_sentinel_pos(t);
        assert forall|k: int| 0 <= k < sentinel_pos(s) implies s[k] != 0 by {
            if k > 0 {
                assert(s[k] == t[k - 1]);
            }
        }
        if sentinel_pos(s) < s.len() {
            assert(s[sentinel_pos(s)] == t[sentinel_pos(t)]);
        }
    }
}

/// The payload framed by the window: the bytes before the sentinel.
pub open spec fn spec_payload(region: Seq<u8>) -> Seq<u8> {
    region.take(sentinel_pos(region))
}

/// What a load of `region` yields: the record whose wire form the framed
/// payload is, if it is one.
pub open spec fn spec_load(region: Seq<u8>) -> Option<(Seq<u8>, Seq<u8>)> {
    if is_record(spec_payload(region)) {
        Some(record_of(spec_payload(region)))
    } else {
        None
    }
}

/// The window contents after a save of a record: its wire form, then zeroes
/// up to the window boundary.
pub open spec fn saved_region_bytes(ssid: Seq<u8>, password: Seq<u8>) -> Seq<u8> {
    json_bytes(ssid, password) + Seq::new(
        (STORE_SIZE - json_bytes(ssid, password).len()) as nat,
        |i: int| 0u8,
    )
}

/// A fixed-size window inside a byte-addressable persistent region.
pub struct Nvs {
    offset: usize,
    size: usize,
    region: Vec<u8>,
}

impl Nvs {
    /// The window lies inside the region.
    pub closed spec fn wf(self) -> bool {
        self.offset + self.size <= self.region@.len()
    }

    /// The bytes of the window.
    pub closed spec fn window(self) -> Seq<u8> {
        self.region@.subrange(self.offset as int, self.offset + self.size)
    }

    pub closed spec fn spec_size(self) -> int {
        self.size as int
    }

    /// A fresh all-zero region of `capacity` bytes with a window of `size`
    /// bytes at its start.  Fails exactly when the window does not fit.
    pub fn new(capacity: usize, size: usize) -> (r: Result<Nvs, WmError>)
        ensures
            r is Ok <==> size <= capacity,
            r matches Ok(nvs) ==> nvs.wf() && nvs.spec_size() == size && nvs.window() =~= Seq::new(
                size as nat,
                |i: int| 0u8,
            ),
    {
        if size > capacity {
            return Err(WmError::Store);
        }
        let region: Vec<u8> = vec_zeroes(capacity);
        let nvs = Nvs { offset: 0, size, region };
        proof {
            assert(nvs.window() =~= Seq::new(size as nat, |i: int| 0u8));
        }
        Ok(nvs)
    }

    /// Overwrites the whole window with the first `size` bytes of `buf`.
    /// Fails exactly when `buf` is shorter than the window.
    pub fn write(&mut self, buf: &[u8]) -> (r: Result<(), WmError>)
        requires
            old(self).wf(),
        ensures
            (*final(self)).wf(),
            (*final(self)).spec_size() == old(self).spec_size(),
            r is Ok <==> buf@.len() >= old(self).spec_size(),
            r is Ok ==> (*final(self)).window() =~= buf@.take(old(self).spec_size()),
            r is Err ==> *final(self) == *old(self),
    {
        if buf.len() < self.size {
            return Err(WmError::Store);
        }
        let cap = self.region.len();
        let mut k: usize = 0;
        while k < self.size
            invariant
                0 <= k <= self.size,
                self.wf(),
                self.region@.len() == cap,
                buf@.len() >= self.size,
                self.offset == old(self).offset,
                self.size == old(self).size,
                self.region@.len() == old(self).region@.len(),
                forall|m: int| self.offset <= m < self.offset + k ==> self.region@[m] == buf@[m
                    - self.offset],
                forall|m: int|
                    0 <= m < self.region@.len() && !(self.offset <= m < self.offset + k)
                        ==> self.region@[m] == old(self).region@[m],
            decreases self.size - k,
        {
            let idx = self.offset + k;
            self.region[idx] = buf[k];
            k = k + 1;
        }
        proof {
            assert(self.window() =~= buf@.take(old(self).spec_size()));
        }
        Ok(())
    }

    /// Reads the start of the window into `buf`, filling it completely.
    /// Fails exactly when `buf` reaches past the window's end.
    pub fn read(&mut self, buf: &mut Vec<u8>) -> (r: Result<(), WmError>)
        requires
            old(self).wf(),
        ensures
            *final(self) == *old(self),
            r is Ok <==> old(buf)@.len() <= old(self).spec_size(),
            r is Ok ==> (*final(buf))@ =~= old(self).window().take(old(buf)@.len() as int),
            r is Err ==> *final(buf) == *old(buf),
    {
        let n = buf.len();
        if n > self.size {
            return Err(WmError::Store);
        }
        let cap = self.region.len();
        let mut k: usize = 0;
        while k < n
            invariant
                0 <= k <= n,
                buf@.len() == n,
                self == old(self),
                self.wf(),
                self.region@.len() == cap,
                n <= self.size,
                forall|m: int| 0 <= m < k ==> buf@[m] == self.region@[self.offset + m],
            decreases n - k,
        {
            let b = self.region[self.offset + k];
            buf[k] = b;
            k = k + 1;
        }
        proof {
            assert(buf@ =~= self.window().take(old(buf)@.len() as int));
        }
        Ok(())
    }
}

/// No byte of the wire form of a record is zero, so the zero sentinel never
/// occurs inside a stored payload.
proof fn lemma_json_bytes_nonzero(ssid: Seq<u8>, password: Seq<u8>)
    requires
        wf_record(ssid, password),
    ensures
        forall|k: int|
            0 <= k < json_bytes(ssid, password).len() ==> #[trigger] json_bytes(
                ssid,
                password,
            )[k] != 0,
{
    let jb = json_bytes(ssid, password);
    assert(key_prefix()[0] != 0 && key_prefix()[1] != 0 && key_prefix()[2] != 0 && key_prefix()[3]
        != 0 && key_prefix()[4] != 0 && key_prefix()[5] != 0 && key_prefix()[6] != 0
        && key_prefix()[7] != 0 && key_prefix()[8] != 0);
    assert(key_mid()[0] != 0 && key_mid()[1] != 0 && key_mid()[2] != 0 && key_mid()[3] != 0
        && key_mid()[4] != 0 && key_mid()[5] != 0 && key_mid()[6] != 0 && key_mid()[7] != 0
        && key_mid()[8] != 0 && key_mid()[9] != 0 && key_mid()[10] != 0 && key_mid()[11] != 0
        && key_mid()[12] != 0 && key_mid()[13] != 0);
    assert(key_suffix()[0] != 0 && key_suffix()[1] != 0);
    assert forall|k: int| 0 <= k < jb.len() implies #[trigger] jb[k] != 0 by {
        if k < 9 {
            assert(jb[k] == key_prefix()[k]);
        } else if k < 9 + ssid.len() {
            assert(jb[k] == ssid[k - 9]);
        } else if k < 23 + ssid.len() {
            assert(jb[k] == key_mid()[k - 9 - ssid.len()]);
        } else if k < 23 + ssid.len() + password.len() {
            assert(jb[k] == password[k - 23 - ssid.len()]);
        } else {
            assert(jb[k] == key_suffix()[k - 23 - ssid.len() - password.len()]);
        }
    }
}

/// Round trip: after a save of any well-formed record on the store, a load
/// finds exactly that record again.
pub proof fn lemma_save_load_round_trip(ssid: Seq<u8>, password: Seq<u8>)
    requires
        wf_record(ssid, password),
    ensures
        spec_load(saved_region_bytes(ssid, password)) == Some((ssid, password)),
{
    let jb = json_bytes(ssid, password);
    let region = saved_region_bytes(ssid, password);
    lemma_json_bytes_nonzero(ssid, password);
    assert(jb.len() == 25 + ssid.len() + password.len());
    assert(region[jb.len() as int] == 0);
    lemma_sentinel_pos(region);
    let sp = sentinel_pos(region);
    if sp < jb.len() {
        assert(region[sp] == jb[sp]);
        assert(false);
    }
    if sp > jb.len() {
        assert(region[jb.len() as int] != 0);
        assert(false);
    }
    assert(spec_payload(region) =~= jb);
    lemma_record_of_json_bytes(ssid, password);
}

/// A load of an all-zero (fresh or erased) window finds no record: the
/// sentinel stands at the very start and the empty payload parses to nothing.
pub proof fn lemma_load_empty_region(region: Seq<u8>)
    requires
        region.len() > 0,
        forall|k: int| 0 <= k < region.len() ==> #[trigger] region[k] == 0,
    ensures
        spec_load(region) is None,
{
    assert(sentinel_pos(region) == 0);
    assert(spec_payload(region) =~= Seq::<u8>::empty());
    assert(!is_record(spec_payload(region))) by {
        if is_record(spec_payload(region)) {
            let (ss, pp): (Seq<u8>, Seq<u8>) = choose|ss: Seq<u8>, pp: Seq<u8>|
                wf_record(ss, pp) && spec_payload(region) == #[trigger] json_bytes(ss, pp);
            assert(json_bytes(ss, pp).len() == 25 + ss.len() + pp.len());
        }
    }
}

/// A load of a window full of garbage with no sentinel anywhere finds no
/// record: the payload spans the whole window, and a record's wire form is
/// always shorter than the window.
pub proof fn lemma_load_garbage_without_sentinel(region: Seq<u8>)
    requires
        region.len() == STORE_SIZE,
        forall|k: int| 0 <= k < region.len() ==> #[trigger] region[k] != 0,
    ensures
        spec_load(region) is None,
{
    lemma_sentinel_pos(region);
    let sp = sentinel_pos(region);
    assert(sp == region.len());
    assert(spec_payload(region) =~= region);
    assert(!is_record(spec_payload(region))) by {
        if is_record(spec_payload(region)) {
            let (ss, pp): (Seq<u8>, Seq<u8>) = choose|ss: Seq<u8>, pp: Seq<u8>|
                wf_record(ss, pp) && spec_payload(region) == #[trigger] json_bytes(ss, pp);
            assert(json_bytes(ss, pp).len() == 25 + ss.len() + pp.len());
            assert(json_bytes(ss, pp).len() <= 25 + 32 + 64);
        }
    }
}

/// The credential store: a [`Nvs`] window of [`STORE_SIZE`] bytes holding at
/// most one serialized [`AutoSetupSettings`] record.
pub struct SavedSettings {
    nvs: Nvs,
    buf: Vec<u8>,
}

impl SavedSettings {
    /// The window and the scratch buffer both span [`STORE_SIZE`] bytes.
    pub closed spec fn wf(self) -> bool {
        self.nvs.wf() && self.nvs.spec_size() == STORE_SIZE && self.buf@.len() == STORE_SIZE
    }

    /// The bytes currently held by the persistent window.
    pub closed spec fn stored(self) -> Seq<u8> {
        self.nvs.window()
    }

    /// A fresh, empty store: the whole window is zero.
    pub fn new() -> (r: Result<SavedSettings, WmError>)
        ensures
            r matches Ok(s) ==> s.wf() && s.stored() =~= Seq::new(STORE_SIZE as nat, |i: int| 0u8),
            r is Ok,
    {
        let nvs = match Nvs::new(STORE_SIZE, STORE_SIZE) {
            Ok(n) => n,
            Err(e) => {
                return Err(e);
            },
        };
        let buf = vec_zeroes(STORE_SIZE);
        Ok(SavedSettings { nvs, buf })
    }

    /// A store whose window already holds `contents`, as mirrored in from the
    /// persistent region at boot.  Fails exactly when `contents` is not
    /// window-sized.
    pub fn with_contents(contents: Vec<u8>) -> (r: Result<SavedSettings, WmError>)
        ensures
            r is Ok <==> contents@.len() == STORE_SIZE,
            r matches Ok(s) ==> s.wf() && s.stored() =~= contents@,
    {
        if contents.len() != STORE_SIZE {
            return Err(WmError::Store);
        }
        let mut store = match SavedSettings::new() {
            Ok(s) => s,
            Err(e) => {
                return Err(e);
            },
        };
        let res = store.nvs.write(contents.as_slice());
        proof {
            assert(res is Ok);
            assert(store.nvs.window() =~= contents@);
        }
        Ok(store)
    }

    /// A copy of the window bytes, for mirroring back out to the persistent
    /// region after a save.
    pub fn contents(&mut self) -> (r: Vec<u8>)
        requires
            old(self).wf(),
        ensures
            *final(self) == *old(self),
            r@ == old(self).stored(),
    {
        let mut out = vec_zeroes(STORE_SIZE);
        let res = self.nvs.read(&mut out);
        proof {
            assert(res is Ok);
            assert(out@ =~= self.stored());
        }
        out
    }

    /// Loads the stored record.  Returns `None` on an empty window, on a
    /// window with no parseable record before the sentinel, and on garbage —
    /// a read that fails to parse is "no stored credentials", never an error.
    pub fn load(&mut self) -> (r: Option<AutoSetupSettings>)
        requires
            old(self).wf(),
        ensures
            (*final(self)).wf(),
            (*final(self)).stored() == old(self).stored(),
            match r {
                Some(s) => s.wf() && spec_load(old(self).stored()) == Some(
                    (s.ssid@, s.password@),
                ),
                None => spec_load(old(self).stored()) is None,
            },
    {
        let res = self.nvs.read(&mut self.buf);
        proof {
            assert(res is Ok);
            assert(self.buf@ =~= self.stored());
        }
        let e = find_sentinel(&self.buf);
        proof {
            lemma_sentinel_pos(self.buf@);
        }
        let payload = &self.buf.as_slice()[0..e];
        proof {
            assert(payload@ =~= spec_payload(self.stored()));
        }
        match AutoSetupSettings::from_json(payload) {
            Some(s) => {
                proof {
                    lemma_record_of_json_bytes(s.ssid@, s.password@);
                }
                Some(s)
            },
            None => {
                proof {
                    assert(!is_record(spec_payload(self.stored()))) by {
                        if is_record(spec_payload(self.stored())) {
                            let (ss, pp): (Seq<u8>, Seq<u8>) = choose|ss: Seq<u8>, pp: Seq<u8>|
                                wf_record(ss, pp) && spec_payload(self.stored())
                                    == #[trigger] json_bytes(ss, pp);
                        }
                    }
                }
                None
            },
        }
    }

    /// Persists `settings` as the one record of the store: its wire form
    /// followed by zeroes up to the window boundary, so a later load finds a
    /// clean sentinel.  A record that is not well formed is refused and the
    /// window is left as it was.
    pub fn save(&mut self, settings: &AutoSetupSettings) -> (r: Result<(), WmError>)
        requires
            old(self).wf(),
        ensures
            (*final(self)).wf(),
            r is Ok <==> settings.wf(),
            settings.wf() ==> (*final(self)).stored() =~= saved_region_bytes(
                settings.ssid@,
                settings.password@,
            ),
            !settings.wf() ==> (*final(self)).stored() == old(self).stored(),
    {
        if !settings.is_wf() {
            return Err(WmError::Store);
        }
        let mut out = settings.to_json();
        proof {
            assert(out@.len() == 25 + settings.ssid@.len() + settings.password@.len());
        }
        while out.len() < STORE_SIZE
            invariant
                json_bytes(settings.ssid@, settings.password@).len() <= out@.len() <= STORE_SIZE,
                out@ =~= json_bytes(settings.ssid@, settings.password@) + Seq::new(
                    (out@.len() - json_bytes(settings.ssid@, settings.password@).len()) as nat,
                    |i: int| 0u8,
                ),
            decreases STORE_SIZE - out@.len(),
        {
            out.push(0);
            proof {
                assert(out@ =~= json_bytes(settings.ssid@, settings.password@) + Seq::new(
                    (out@.len() - json_bytes(settings.ssid@, settings.password@).len()) as nat,
                    |i: int| 0u8,
                ));
            }
        }
        let res = self.nvs.write(out.as_slice());
        proof {
            assert(res is Ok);
            assert(self.nvs.window() =~= saved_region_bytes(settings.ssid@, settings.password@));
        }
        self.buf = out;
        Ok(())
    }
}

/// Position of the first zero byte of `v`, or its length when it has none.
fn find_sentinel(v: &Vec<u8>) -> (e: usize)
    ensures
        e == sentinel_pos(v@),
{
    let mut i: usize = 0;
    while i < v.len()
        invariant
            0 <= i <= v@.len(),
            forall|k: int| 0 <= k < i ==> v@[k] != 0,
        decreases v@.len() - i,
    {
        if v[i] == 0 {
            proof {
                lemma_sentinel_pos(v@);
                let sp = sentinel_pos(v@);
                if sp < i {
                    assert(v@[sp] != 0);
                }
            }
            return i;
        }
        i = i + 1;
    }
    proof {
        lemma_sentinel_pos(v@);
        let sp = sentinel_pos(v@);
        if sp < i {
            assert(v@[sp] != 0);
        }
    }
    i
}

/// A vector of `n` zero bytes.
fn vec_zeroes(n: usize) -> (r: Vec<u8>)
    ensures
        r@ =~= Seq::new(n as nat, |i: int| 0u8),
{
    let mut v: Vec<u8> = Vec::new();
    let mut k: usize = 0;
    while k < n
        invariant
            0 <= k <= n,
            v@ =~= Seq::new(k as nat, |i: int| 0u8),
        decreases n - k,
    {
        v.push(0);
        k = k + 1;
        proof {
            assert(v@ =~= Seq::new(k as nat, |i: int| 0u8));
        }
    }
    v
}

} // verus!
