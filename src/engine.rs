//! The scrub engine: one bounded pass over a buffer that redacts the first
//! byte of every sensitive window and records whether a needle was seen.
use vstd::prelude::*;
use crate::catalog::{
    classify, holds_needle, sensitive, Severity, MAX_WINDOW_WIDTH,
};

verus! {

/// Longest prefix of a buffer that one scrub inspects.
pub const MAX_SCAN_LENGTH: usize = 2048;

/// ASCII `*`, written over the first byte of each sensitive window.
pub const REDACTION_BYTE: u8 = 42;

/// How far a scrub looks into a buffer of `len` bytes.
pub open spec fn scan_bound(len: nat) -> nat {
    if len < MAX_SCAN_LENGTH {
        len
    } else {
        MAX_SCAN_LENGTH as nat
    }
}

/// One past the last byte of the window that starts at `i`.
pub open spec fn window_end(len: nat, i: int) -> int {
    if i + MAX_WINDOW_WIDTH < scan_bound(len) {
        i + MAX_WINDOW_WIDTH
    } else {
        scan_bound(len) as int
    }
}

/// The window of `s` that starts at offset `i`.
pub open spec fn window_at(s: Seq<u8>, i: int) -> Seq<u8> {
    s.subrange(i, window_end(s.len(), i))
}

/// A scrub of `s` redacts offset `i`.
pub open spec fn redacts(s: Seq<u8>, i: int) -> bool {
    0 <= i < scan_bound(s.len()) && sensitive(window_at(s, i))
}

/// What a scrub leaves of `s`.
pub open spec fn scrubbed(s: Seq<u8>) -> Seq<u8> {
    Seq::new(s.len(), |i: int| if redacts(s, i) { REDACTION_BYTE } else { s[i] })
}

/// How many of the offsets below `n` a scrub of `s` redacts.
pub open spec fn redactions_below(s: Seq<u8>, n: int) -> nat
    decreases n,
{
    if n <= 0 {
        0
    } else {
        redactions_below(s, n - 1) + if redacts(s, n - 1) { 1nat } else { 0nat }
    }
}

/// How many bytes a scrub of `s` redacts.
pub open spec fn redaction_count(s: Seq<u8>) -> nat {
    redactions_below(s, scan_bound(s.len()) as int)
}

/// A window of `s` within the scan bound holds a needle.
pub open spec fn violates(s: Seq<u8>) -> bool {
    exists|i: int| 0 <= i < scan_bound(s.len()) && #[trigger] holds_needle(window_at(s, i))
}

/// The violation state of one engine: whether its latest scrub met a needle.
pub struct Airlock {
    violation: bool,
}

impl View for Airlock {
    type V = bool;

    closed spec fn view(&self) -> bool {
        self.violation
    }
}

impl Airlock {
    /// An engine that has scrubbed nothing and reports no violation.
    pub fn new() -> (r: Airlock)
        ensures
            !r@,
    {
        Airlock { violation: false }
    }
}

/// Scrubs `buf` in place and returns how many bytes were redacted.
///
/// The violation state is cleared first; an absent or empty buffer is left
/// as it is. Otherwise each offset `i` below the scan bound whose window is
/// sensitive gets the redaction byte, and the state records whether any of
/// those windows held a needle.
pub fn airlock_scrub_inplace(state: &mut Airlock, buf: Option<&mut [u8]>) -> (count: u32)
    ensures
        buf is None ==> count == 0 && !final(state)@,
        buf matches Some(b) ==> {
            &&& final(b)@ == scrubbed(b@)
            &&& count == redaction_count(b@)
            &&& final(state)@ == violates(b@)
        },
{
    state.violation = false;
    match buf {
        None => 0,
        Some(s) => scrub_slice(state, s),
    }
}

fn scrub_slice(state: &mut Airlock, s: &mut [u8]) -> (count: u32)
    requires
        !old(state)@,
    ensures
        final(s)@ == scrubbed(old(s)@),
        count == redaction_count(old(s)@),
        final(state)@ == violates(old(s)@),
{
    let ghost orig = s@;
    let n: usize = s.len();
    let bound: usize = if n < MAX_SCAN_LENGTH {
        n
    } else {
        MAX_SCAN_LENGTH
    };
    let mut replaced: u32 = 0;
    let mut i: usize = 0;
    while i < bound
        invariant
            s@.len() == orig.len(),
            n == orig.len(),
            bound == scan_bound(orig.len()),
            i <= bound,
            replaced == redactions_below(orig, i as int),
            replaced <= i,
            forall|j: int| 0 <= j < i ==> s@[j] == #[trigger] scrubbed(orig)[j],
            forall|j: int| i <= j < orig.len() ==> s@[j] == orig[j],
            state@ == exists|j: int| 0 <= j < i && #[trigger] holds_needle(window_at(orig, j)),
        decreases bound - i,
    {
        let end: usize = if i + MAX_WINDOW_WIDTH < bound {
            i + MAX_WINDOW_WIDTH
        } else {
            bound
        };
        assert(s@.subrange(i as int, end as int) =~= window_at(orig, i as int));
        let severity = classify(&s[i..end]);
        match severity {
            Severity::Clean => {},
            _ => {
                if severity == Severity::Needle {
                    state.violation = true;
                }
                s[i] = REDACTION_BYTE;
                replaced = replaced + 1;
            },
        }
        assert(forall|j: int| 0 <= j < i ==> s@[j] == #[trigger] scrubbed(orig)[j]);
        i = i + 1;
    }
    assert(s@ =~= scrubbed(orig));
    replaced
}

/// The outcome of the latest scrub: 1 where it met a needle, else 0.
pub fn airlock_detected_violation(state: &Airlock) -> (r: u32)
    ensures
        r == if state@ { 1u32 } else { 0u32 },
{
    if state.violation {
        1
    } else {
        0
    }
}

} // verus!
