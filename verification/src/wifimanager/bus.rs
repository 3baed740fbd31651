//! The signal bus: process-wide shared state connecting the captive-portal
//! workers to the supervisor.
//!
//! Three independent primitives, not one protocol: a single-slot
//! latest-wins submission channel, a scan-result text buffer with an
//! in-progress flag for non-blocking best-effort reads, and a one-shot end
//! broadcast.  The driver wraps one value of [`WmInnerSignals`] in its own
//! synchronisation primitive; every transition here is a single atomic step
//! of that shared state.

use vstd::prelude::*;

verus! {

/// The abstract state of the bus.
pub struct BusView {
    /// The latest unconsumed portal submission, if any.
    pub submission: Option<Seq<u8>>,
    /// The last fully published scan text.
    pub scan_text: Seq<u8>,
    /// A scan write is in progress.
    pub scan_locked: bool,
    /// The end broadcast has fired.
    pub ended: bool,
}

/// A submission overwrites whatever was in the slot: latest wins.
pub open spec fn spec_submit(b: BusView, bytes: Seq<u8>) -> BusView {
    BusView { submission: Some(bytes), ..b }
}

/// Consuming the slot empties it and yields what was there.
pub open spec fn spec_take(b: BusView) -> (BusView, Option<Seq<u8>>) {
    (BusView { submission: None, ..b }, b.submission)
}

/// Starting a scan write clears the buffer and marks it in progress.
pub open spec fn spec_begin_scan(b: BusView) -> BusView {
    BusView { scan_text: Seq::empty(), scan_locked: true, ..b }
}

/// Finishing a scan write publishes the whole text at once.
pub open spec fn spec_finish_scan(b: BusView, text: Seq<u8>) -> BusView {
    BusView { scan_text: text, scan_locked: false, ..b }
}

/// What a best-effort read yields: empty while a write is in progress, the
/// last published text otherwise — never a torn value.
pub open spec fn spec_read_scan(b: BusView) -> Seq<u8> {
    if b.scan_locked {
        Seq::empty()
    } else {
        b.scan_text
    }
}

/// The end broadcast is one-shot: once set it stays set.
pub open spec fn spec_signal_end(b: BusView) -> BusView {
    BusView { ended: true, ..b }
}

/// The shared state of the provisioning tasks.
pub struct WmInnerSignals {
    conn_info: Option<Vec<u8>>,
    scan_buf: Vec<u8>,
    scan_locked: bool,
    ended: bool,
}

impl View for WmInnerSignals {
    type V = BusView;

    closed spec fn view(&self) -> BusView {
        BusView {
            submission: match self.conn_info {
                Some(v) => Some(v@),
                None => None,
            },
            scan_text: self.scan_buf@,
            scan_locked: self.scan_locked,
            ended: self.ended,
        }
    }
}

impl WmInnerSignals {
    /// A fresh bus: no submission, empty scan text, no write in progress,
    /// end not signalled.
    pub fn new() -> (r: WmInnerSignals)
        ensures
            r@ == (BusView {
                submission: None,
                scan_text: Seq::<u8>::empty(),
                scan_locked: false,
                ended: false,
            }),
    {
        let r = WmInnerSignals { conn_info: None, scan_buf: Vec::new(), scan_locked: false, ended: false };
        proof {
            assert(r@.scan_text =~= Seq::<u8>::empty());
            assert(r@ == (BusView {
                submission: None,
                scan_text: Seq::<u8>::empty(),
                scan_locked: false,
                ended: false,
            }));
        }
        r
    }

    /// Places `bytes` in the submission slot, overwriting any unconsumed
    /// previous submission.
    pub fn submit(&mut self, bytes: Vec<u8>)
        ensures
            (*final(self))@ == spec_submit(old(self)@, bytes@),
    {
        self.conn_info = Some(bytes);
    }

    /// Whether an unconsumed submission is waiting.
    pub fn signaled(&self) -> (r: bool)
        ensures
            r == (self@.submission is Some),
    {
        self.conn_info.is_some()
    }

    /// Takes the waiting submission, if any, emptying the slot.
    pub fn take_submission(&mut self) -> (r: Option<Vec<u8>>)
        ensures
            (*final(self))@ == spec_take(old(self)@).0,
            match r {
                Some(v) => old(self)@.submission == Some(v@),
                None => old(self)@.submission is None,
            },
    {
        self.conn_info.take()
    }

    /// Tries to start a scan write: fails without any effect while another
    /// write is in progress, otherwise clears the buffer and marks it.
    pub fn try_begin_scan_write(&mut self) -> (r: bool)
        ensures
            r == !old(self)@.scan_locked,
            r ==> (*final(self))@ == spec_begin_scan(old(self)@),
            !r ==> *final(self) == *old(self),
    {
        if self.scan_locked {
            return false;
        }
        self.scan_buf = Vec::new();
        self.scan_locked = true;
        proof {
            assert(self@.scan_text =~= Seq::<u8>::empty());
            assert(self@ == spec_begin_scan(old(self)@));
        }
        true
    }

    /// Publishes the whole scan text and ends the write.
    pub fn finish_scan_write(&mut self, text: Vec<u8>)
        requires
            old(self)@.scan_locked,
        ensures
            (*final(self))@ == spec_finish_scan(old(self)@, text@),
    {
        self.scan_buf = text;
        self.scan_locked = false;
    }

    /// Best-effort non-blocking read of the scan text: empty while a write
    /// is in progress, the last published text otherwise.
    pub fn read_scan_results(&self) -> (r: Vec<u8>)
        ensures
            r@ == spec_read_scan(self@),
    {
        if self.scan_locked {
            Vec::new()
        } else {
            copy_bytes(&self.scan_buf)
        }
    }

    /// Fires the one-shot end broadcast.
    pub fn signal_end(&mut self)
        ensures
            (*final(self))@ == spec_signal_end(old(self)@),
    {
        self.ended = true;
    }

    /// Whether the end broadcast has fired.
    pub fn end_signalled(&self) -> (r: bool)
        ensures
            r == self@.ended,
    {
        self.ended
    }
}

/// A fresh copy of the bytes of `v`.
fn copy_bytes(v: &Vec<u8>) -> (r: Vec<u8>)
    ensures
        r@ == v@,
{
    let mut out: Vec<u8> = Vec::new();
    let mut k: usize = 0;
    while k < v.len()
        invariant
            0 <= k <= v@.len(),
            out@ == v@.subrange(0, k as int),
        decreases v@.len() - k,
    {
        out.push(v[k]);
        k = k + 1;
        proof {
            assert(out@ =~= v@.subrange(0, k as int));
        }
    }
    proof {
        assert(out@ =~= v@);
    }
    out
}

/// Latest submission wins: when a second submission arrives before the first
/// was consumed, only the second is ever observed — the first is neither
/// queued nor replayed.
pub proof fn lemma_latest_submission_wins(b: BusView, first: Seq<u8>, second: Seq<u8>)
    ensures
        spec_take(spec_submit(spec_submit(b, first), second)).1 == Some(second),
        spec_take(spec_submit(spec_submit(b, first), second)).0.submission is None,
{
}

/// The end broadcast is one-shot and final: signalling again changes
/// nothing, and no other bus operation clears it — a task that saw it set
/// never sees it clear.
pub proof fn lemma_end_broadcast_sticky(b: BusView, bytes: Seq<u8>, text: Seq<u8>)
    ensures
        spec_signal_end(spec_signal_end(b)) == spec_signal_end(b),
        spec_submit(spec_signal_end(b), bytes).ended,
        spec_take(spec_signal_end(b)).0.ended,
        spec_begin_scan(spec_signal_end(b)).ended,
        spec_finish_scan(spec_signal_end(b), text).ended,
{
}

/// A read racing a scan write is never torn: while the write is in progress
/// it sees empty, and after the write finishes it sees the whole new text.
pub proof fn lemma_scan_read_never_torn(b: BusView, text: Seq<u8>)
    ensures
        spec_read_scan(spec_begin_scan(b)) == Seq::<u8>::empty(),
        spec_read_scan(spec_finish_scan(spec_begin_scan(b), text)) == text,
        !b.scan_locked ==> spec_read_scan(b) == b.scan_text,
{
}

} // verus!
