//! The pattern catalog: the byte sequences and structural heuristics that
//! mark a window of bytes as sensitive, and the classifier over them.
//!
//! Matching is exact and case-sensitive: a pattern matches where the window
//! holds the very same bytes, with no folding or normalisation.
use vstd::prelude::*;

verus! {

/// Widest window the classifier is handed.
pub const MAX_WINDOW_WIDTH: usize = 64;

/// ASCII `-----BEGIN`: the opening of a PEM credential block.
pub const CREDENTIAL_HEADER: [u8; 10] = [45, 45, 45, 45, 45, 66, 69, 71, 73, 78];

/// ASCII `PRIVATE_KEY`.
pub const PRIVATE_KEY_KEYWORD: [u8; 11] = [80, 82, 73, 86, 65, 84, 69, 95, 75, 69, 89];

/// ASCII `NEEDLE_HASH_EXAMPLE_1`.
pub const NEEDLE_ONE: [u8; 21] = [
    78, 69, 69, 68, 76, 69, 95, 72, 65, 83, 72, 95, 69, 88, 65, 77, 80, 76, 69, 95, 49,
];

/// ASCII `NEEDLE_HASH_EXAMPLE_2`.
pub const NEEDLE_TWO: [u8; 21] = [
    78, 69, 69, 68, 76, 69, 95, 72, 65, 83, 72, 95, 69, 88, 65, 77, 80, 76, 69, 95, 50,
];

/// How severe a window is: a needle outranks a structural hit.
#[derive(Clone, Copy, Debug, PartialEq, Eq, Structural)]
pub enum Severity {
    Clean,
    Marker,
    Needle,
}

/// `p` occurs in `s` starting at offset `i`.
pub open spec fn occurs_at(s: Seq<u8>, p: Seq<u8>, i: int) -> bool {
    0 <= i && i + p.len() <= s.len() && s.subrange(i, i + p.len()) == p
}

/// `p` occurs somewhere in `s`.
pub open spec fn contains(s: Seq<u8>, p: Seq<u8>) -> bool {
    exists|i: int| #[trigger] occurs_at(s, p, i)
}

/// The table of needles: exact byte sequences whose presence is a violation.
pub open spec fn needle_table() -> Seq<Seq<u8>> {
    seq![NEEDLE_ONE@, NEEDLE_TWO@]
}

/// Some needle of the table occurs in `w`.
pub open spec fn holds_needle(w: Seq<u8>) -> bool {
    exists|k: int| 0 <= k < needle_table().len() && #[trigger] contains(w, needle_table()[k])
}

/// `w` starts with the credential header or holds the private-key keyword.
pub open spec fn structural_hit(w: Seq<u8>) -> bool {
    occurs_at(w, CREDENTIAL_HEADER@, 0) || contains(w, PRIVATE_KEY_KEYWORD@)
}

/// `w` is to be redacted.
pub open spec fn sensitive(w: Seq<u8>) -> bool {
    structural_hit(w) || holds_needle(w)
}

pub open spec fn severity_of(w: Seq<u8>) -> Severity {
    if holds_needle(w) {
        Severity::Needle
    } else if structural_hit(w) {
        Severity::Marker
    } else {
        Severity::Clean
    }
}

fn occurs_at_exec(s: &[u8], p: &[u8], i: usize) -> (r: bool)
    requires
        i + p@.len() <= s@.len(),
    ensures
        r == occurs_at(s@, p@, i as int),
{
    let n: usize = s.len();
    let mut k: usize = 0;
    while k < p.len()
        invariant
            n == s@.len(),
            k <= p@.len(),
            i + p@.len() <= s@.len(),
            forall|j: int| 0 <= j < k ==> s@[i + j] == p@[j],
        decreases p@.len() - k,
    {
        if s[i + k] != p[k] {
            assert(s@.subrange(i as int, i + p@.len())[k as int] != p@[k as int]);
            return false;
        }
        k = k + 1;
    }
    assert(s@.subrange(i as int, i + p@.len()) =~= p@);
    true
}

fn contains_exec(s: &[u8], p: &[u8]) -> (r: bool)
    ensures
        r == contains(s@, p@),
{
    let n: usize = s.len();
    if p.len() > n {
        assert forall|i: int| !occurs_at(s@, p@, i) by {}
        return false;
    }
    let last: usize = n - p.len();
    let mut i: usize = 0;
    while i < last
        invariant
            n == s@.len(),
            last + p@.len() == n,
            i <= last,
            forall|j: int| 0 <= j < i ==> !#[trigger] occurs_at(s@, p@, j),
        decreases last - i,
    {
        if occurs_at_exec(s, p, i) {
            return true;
        }
        i = i + 1;
    }
    let r = occurs_at_exec(s, p, last);
    assert forall|j: int| j != last && #[trigger] occurs_at(s@, p@, j) implies false by {
        if 0 <= j && j < i {
        }
    }
    r
}

/// Whether some needle of the table occurs in `window`.
pub fn window_has_needle(window: &[u8]) -> (r: bool)
    ensures
        r == holds_needle(window@),
{
    let one = contains_exec(window, &NEEDLE_ONE);
    let two = contains_exec(window, &NEEDLE_TWO);
    proof {
        if one {
            assert(contains(window@, needle_table()[0]));
        }
        if two {
            assert(contains(window@, needle_table()[1]));
        }
        if holds_needle(window@) {
            let k = choose|k: int|
                0 <= k < needle_table().len() && #[trigger] contains(window@, needle_table()[k]);
            assert(k == 0 || k == 1);
        }
    }
    one || two
}

/// Whether `window` is to be redacted: it starts with the credential header,
/// holds the private-key keyword, or holds a needle.
pub fn is_sensitive_window(window: &[u8]) -> (r: bool)
    ensures
        r == sensitive(window@),
{
    if window.len() >= CREDENTIAL_HEADER.len() && occurs_at_exec(window, &CREDENTIAL_HEADER, 0) {
        return true;
    }
    if contains_exec(window, &PRIVATE_KEY_KEYWORD) {
        return true;
    }
    window_has_needle(window)
}

/// The severity of `window`: `Needle` where a needle occurs, else `Marker`
/// on a structural hit, else `Clean`.
pub fn classify(window: &[u8]) -> (r: Severity)
    ensures
        r == severity_of(window@),
{
    if window_has_needle(window) {
        Severity::Needle
    } else if is_sensitive_window(window) {
        Severity::Marker
    } else {
        Severity::Clean
    }
}

} // verus!
