//! Laws of the scrub, stated over the spec model of the engine.
use vstd::prelude::*;
use crate::catalog::{
    contains, holds_needle, needle_table, occurs_at, sensitive, structural_hit,
    CREDENTIAL_HEADER, PRIVATE_KEY_KEYWORD,
};
use crate::engine::{
    redaction_count, redactions_below, redacts, scan_bound, scrubbed, violates, window_at,
    window_end, REDACTION_BYTE,
};

verus! {

/// `p` does not hold the redaction byte.
pub open spec fn free_of_redaction_byte(p: Seq<u8>) -> bool {
    forall|m: int| 0 <= m < p.len() ==> p[m] != REDACTION_BYTE
}

/// No pattern of the catalog holds the redaction byte.
pub proof fn lemma_patterns_free_of_redaction_byte()
    ensures
        free_of_redaction_byte(CREDENTIAL_HEADER@),
        free_of_redaction_byte(PRIVATE_KEY_KEYWORD@),
        forall|k: int|
            0 <= k < needle_table().len() ==> free_of_redaction_byte(#[trigger] needle_table()[k]),
{
    assert(free_of_redaction_byte(needle_table()[0]));
    assert(free_of_redaction_byte(needle_table()[1]));
}

proof fn lemma_no_redactions_below(s: Seq<u8>, n: int)
    requires
        forall|i: int| 0 <= i < n ==> !#[trigger] redacts(s, i),
    ensures
        redactions_below(s, n) == 0,
    decreases n,
{
    if n > 0 {
        lemma_no_redactions_below(s, n - 1);
    }
}

proof fn lemma_redaction_counted(s: Seq<u8>, i: int, n: int)
    requires
        0 <= i < n,
        redacts(s, i),
    ensures
        redactions_below(s, n) >= 1,
    decreases n,
{
    if i < n - 1 {
        lemma_redaction_counted(s, i, n - 1);
    }
}

/// A scrub of an empty buffer redacts nothing, changes nothing and reports
/// no violation.
pub proof fn lemma_empty_buffer_is_untouched(s: Seq<u8>)
    requires
        s.len() == 0,
    ensures
        redaction_count(s) == 0,
        scrubbed(s) == s,
        !violates(s),
{
    assert(scrubbed(s) =~= s);
}

/// Where no window within the scan bound is sensitive, a scrub redacts
/// nothing and leaves the buffer byte for byte as it was.
pub proof fn lemma_clean_buffer_is_untouched(s: Seq<u8>)
    requires
        forall|i: int| 0 <= i < scan_bound(s.len()) ==> !#[trigger] sensitive(window_at(s, i)),
    ensures
        redaction_count(s) == 0,
        scrubbed(s) == s,
{
    assert forall|i: int| 0 <= i < scan_bound(s.len()) implies !#[trigger] redacts(s, i) by {
        assert(!sensitive(window_at(s, i)));
    }
    lemma_no_redactions_below(s, scan_bound(s.len()) as int);
    assert(scrubbed(s) =~= s);
}

/// Where a needle of the table lies wholly within the scan bound, starting
/// at offset `i`, a scrub redacts byte `i` and reports a violation.
pub proof fn lemma_needle_is_redacted(s: Seq<u8>, i: int, k: int)
    requires
        0 <= k < needle_table().len(),
        0 <= i,
        i + needle_table()[k].len() <= scan_bound(s.len()),
        s.subrange(i, i + needle_table()[k].len()) == needle_table()[k],
    ensures
        scrubbed(s)[i] == REDACTION_BYTE,
        violates(s),
        redaction_count(s) >= 1,
{
    let p = needle_table()[k];
    let w = window_at(s, i);
    assert(w.subrange(0, p.len() as int) =~= p);
    assert(occurs_at(w, p, 0));
    assert(contains(w, p));
    assert(holds_needle(w));
    assert(redacts(s, i));
    lemma_redaction_counted(s, i, scan_bound(s.len()) as int);
}

proof fn lemma_occurrence_in_part(s: Seq<u8>, a: int, b: int, p: Seq<u8>)
    requires
        0 <= a <= b <= s.len(),
        contains(s.subrange(a, b), p),
    ensures
        contains(s, p),
{
    let w = s.subrange(a, b);
    let q = choose|q: int| #[trigger] occurs_at(w, p, q);
    assert(s.subrange(a + q, a + q + p.len()) =~= w.subrange(q, q + p.len()));
    assert(occurs_at(s, p, a + q));
}

/// Where the buffer holds the credential header within the scan bound,
/// starting at offset `i`, and holds no needle, a scrub redacts byte `i`
/// and reports no violation.
pub proof fn lemma_header_without_needle(s: Seq<u8>, i: int)
    requires
        0 <= i,
        i + CREDENTIAL_HEADER@.len() <= scan_bound(s.len()),
        occurs_at(s, CREDENTIAL_HEADER@, i),
        forall|k: int| 0 <= k < needle_table().len() ==> !contains(s, #[trigger] needle_table()[k]),
    ensures
        scrubbed(s)[i] == REDACTION_BYTE,
        !violates(s),
        redaction_count(s) >= 1,
{
    let w = window_at(s, i);
    assert(w.subrange(0, CREDENTIAL_HEADER@.len() as int) =~= CREDENTIAL_HEADER@);
    assert(structural_hit(w));
    assert(redacts(s, i));
    lemma_redaction_counted(s, i, scan_bound(s.len()) as int);
    assert forall|j: int| 0 <= j < scan_bound(s.len()) implies !#[trigger] holds_needle(
        window_at(s, j),
    ) by {
        if holds_needle(window_at(s, j)) {
            let k = choose|k: int|
                0 <= k < needle_table().len() && #[trigger] contains(
                    window_at(s, j),
                    needle_table()[k],
                );
            lemma_occurrence_in_part(s, j, window_end(s.len(), j), needle_table()[k]);
        }
    }
}

/// A scrub never touches a byte at or beyond the scan bound.
pub proof fn lemma_tail_is_untouched(s: Seq<u8>)
    ensures
        scrubbed(s).len() == s.len(),
        forall|j: int| scan_bound(s.len()) <= j < s.len() ==> #[trigger] scrubbed(s)[j] == s[j],
{
}

/// Where `t` differs from `s` only by bytes that were set to the redaction
/// byte, an occurrence in `t` of a pattern free of that byte is one in `s`.
proof fn lemma_occurrence_survives_redaction(t: Seq<u8>, s: Seq<u8>, p: Seq<u8>, q: int)
    requires
        t.len() == s.len(),
        forall|m: int| 0 <= m < t.len() ==> #[trigger] t[m] == s[m] || t[m] == REDACTION_BYTE,
        free_of_redaction_byte(p),
        occurs_at(t, p, q),
    ensures
        occurs_at(s, p, q),
{
    assert forall|m: int| 0 <= m < p.len() implies #[trigger] s.subrange(q, q + p.len())[m]
        == p[m] by {
        assert(t.subrange(q, q + p.len())[m] == p[m]);
        assert(t[q + m] == p[m]);
    }
    assert(s.subrange(q, q + p.len()) =~= p);
}

proof fn lemma_contains_survives_redaction(t: Seq<u8>, s: Seq<u8>, p: Seq<u8>)
    requires
        t.len() == s.len(),
        forall|m: int| 0 <= m < t.len() ==> #[trigger] t[m] == s[m] || t[m] == REDACTION_BYTE,
        free_of_redaction_byte(p),
        contains(t, p),
    ensures
        contains(s, p),
{
    let q = choose|q: int| #[trigger] occurs_at(t, p, q);
    lemma_occurrence_survives_redaction(t, s, p, q);
}

/// Every window that is sensitive in the scrubbed buffer was sensitive in
/// the unscrubbed buffer, and every one that holds a needle held it there too.
proof fn lemma_rescrub_finds_nothing_new(s: Seq<u8>, j: int)
    requires
        0 <= j < scan_bound(s.len()),
    ensures
        sensitive(window_at(scrubbed(s), j)) ==> sensitive(window_at(s, j)),
        holds_needle(window_at(scrubbed(s), j)) ==> holds_needle(window_at(s, j)),
{
    let t = scrubbed(s);
    let wt = window_at(t, j);
    let ws = window_at(s, j);
    lemma_patterns_free_of_redaction_byte();
    assert forall|m: int| 0 <= m < wt.len() implies #[trigger] wt[m] == ws[m] || wt[m]
        == REDACTION_BYTE by {
        assert(wt[m] == t[j + m]);
        assert(ws[m] == s[j + m]);
    }
    if occurs_at(wt, CREDENTIAL_HEADER@, 0) {
        lemma_occurrence_survives_redaction(wt, ws, CREDENTIAL_HEADER@, 0);
    }
    if contains(wt, PRIVATE_KEY_KEYWORD@) {
        lemma_contains_survives_redaction(wt, ws, PRIVATE_KEY_KEYWORD@);
    }
    if holds_needle(wt) {
        let k = choose|k: int|
            0 <= k < needle_table().len() && #[trigger] contains(wt, needle_table()[k]);
        lemma_contains_survives_redaction(wt, ws, needle_table()[k]);
        assert(contains(ws, needle_table()[k]));
    }
}

proof fn lemma_rescrub_count_below(s: Seq<u8>, n: int)
    requires
        n <= scan_bound(s.len()),
    ensures
        redactions_below(scrubbed(s), n) <= redactions_below(s, n),
    decreases n,
{
    if n > 0 {
        lemma_rescrub_count_below(s, n - 1);
        lemma_rescrub_finds_nothing_new(s, n - 1);
    }
}

/// Scrubbing is a fixed point after one pass: a second scrub of the output
/// changes nothing, redacts no more than the first did, and reports a
/// violation only where the first did.
pub proof fn lemma_scrub_is_fixed_point(s: Seq<u8>)
    ensures
        scrubbed(scrubbed(s)) == scrubbed(s),
        redaction_count(scrubbed(s)) <= redaction_count(s),
        violates(scrubbed(s)) ==> violates(s),
{
    let t = scrubbed(s);
    assert forall|j: int| 0 <= j < t.len() implies #[trigger] scrubbed(t)[j] == t[j] by {
        if redacts(t, j) {
            lemma_rescrub_finds_nothing_new(s, j);
        }
    }
    assert(scrubbed(t) =~= t);
    lemma_rescrub_count_below(s, scan_bound(s.len()) as int);
    if violates(t) {
        let j = choose|j: int| 0 <= j < scan_bound(t.len()) && #[trigger] holds_needle(window_at(t, j));
        lemma_rescrub_finds_nothing_new(s, j);
        assert(holds_needle(window_at(s, j)));
    }
}

} // verus!
