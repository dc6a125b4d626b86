use airlock::catalog::{classify, is_sensitive_window, window_has_needle, Severity};
use airlock::engine::{
    airlock_detected_violation, airlock_scrub_inplace, Airlock, MAX_SCAN_LENGTH, REDACTION_BYTE,
};

fn scrub(state: &mut Airlock, bytes: &mut Vec<u8>) -> u32 {
    airlock_scrub_inplace(state, Some(bytes.as_mut_slice()))
}

#[test]
fn fresh_engine_reports_no_violation() {
    let state = Airlock::new();
    assert_eq!(airlock_detected_violation(&state), 0);
}

#[test]
fn absent_buffer_clears_violation() {
    let mut state = Airlock::new();
    let mut buf = b"NEEDLE_HASH_EXAMPLE_1".to_vec();
    assert!(scrub(&mut state, &mut buf) >= 1);
    assert_eq!(airlock_detected_violation(&state), 1);
    assert_eq!(airlock_scrub_inplace(&mut state, None), 0);
    assert_eq!(airlock_detected_violation(&state), 0);
}

#[test]
fn empty_buffer_clears_violation() {
    let mut state = Airlock::new();
    let mut buf = b"NEEDLE_HASH_EXAMPLE_2".to_vec();
    scrub(&mut state, &mut buf);
    assert_eq!(airlock_detected_violation(&state), 1);
    let mut empty: Vec<u8> = Vec::new();
    assert_eq!(scrub(&mut state, &mut empty), 0);
    assert!(empty.is_empty());
    assert_eq!(airlock_detected_violation(&state), 0);
}

#[test]
fn clean_buffer_is_untouched() {
    let mut state = Airlock::new();
    let before = b"nothing to see here, only ordinary text -----begin private_key".to_vec();
    let mut buf = before.clone();
    assert_eq!(scrub(&mut state, &mut buf), 0);
    assert_eq!(buf, before);
    assert_eq!(airlock_detected_violation(&state), 0);
}

#[test]
fn needle_scenario_redacts_start_and_flags() {
    let mut state = Airlock::new();
    let mut buf = b"xxxxxNEEDLE_HASH_EXAMPLE_1yyyyy".to_vec();
    let count = scrub(&mut state, &mut buf);
    assert!(count >= 1);
    // every window starting at offsets 0 to 5 holds the whole needle
    assert_eq!(count, 6);
    assert_eq!(buf[5], b'*');
    assert_eq!(&buf[..], b"******EEDLE_HASH_EXAMPLE_1yyyyy");
    assert_eq!(airlock_detected_violation(&state), 1);
}

#[test]
fn second_needle_is_flagged() {
    let mut state = Airlock::new();
    let mut buf = vec![b'.'; 200];
    buf[100..121].copy_from_slice(b"NEEDLE_HASH_EXAMPLE_2");
    let count = scrub(&mut state, &mut buf);
    assert_eq!(buf[100], REDACTION_BYTE);
    // windows starting at offsets 57 to 100 hold the whole needle
    assert_eq!(count, 44);
    assert_eq!(buf[56], b'.');
    assert_eq!(buf[57], REDACTION_BYTE);
    assert_eq!(buf[101], b'E');
    assert_eq!(airlock_detected_violation(&state), 1);
}

#[test]
fn certificate_header_scenario() {
    let mut state = Airlock::new();
    let mut buf = b"-----BEGIN CERTIFICATE-----".to_vec();
    let count = scrub(&mut state, &mut buf);
    assert!(count >= 1);
    assert_eq!(count, 1);
    assert_eq!(&buf[..], b"*----BEGIN CERTIFICATE-----");
    assert_eq!(airlock_detected_violation(&state), 0);
}

#[test]
fn private_key_keyword_is_redacted_without_violation() {
    let mut state = Airlock::new();
    let mut buf = b"ab PRIVATE_KEY".to_vec();
    let count = scrub(&mut state, &mut buf);
    // windows starting at offsets 0 to 3 hold the keyword
    assert_eq!(count, 4);
    assert_eq!(&buf[..], b"****RIVATE_KEY");
    assert_eq!(airlock_detected_violation(&state), 0);
}

#[test]
fn large_uniform_buffer_scenario() {
    let mut state = Airlock::new();
    let mut buf = vec![0x41u8; 4096];
    buf[3000..3021].copy_from_slice(b"NEEDLE_HASH_EXAMPLE_1");
    let before = buf.clone();
    assert_eq!(scrub(&mut state, &mut buf), 0);
    assert_eq!(airlock_detected_violation(&state), 0);
    assert_eq!(buf, before);
}

#[test]
fn bytes_beyond_scan_bound_are_untouched() {
    let mut state = Airlock::new();
    let mut buf = vec![b'-'; 4096];
    buf[2040..2050].copy_from_slice(b"-----BEGIN");
    buf[2100..2110].copy_from_slice(b"-----BEGIN");
    let before = buf.clone();
    let count = scrub(&mut state, &mut buf);
    assert_eq!(count, 0);
    assert_eq!(&buf[MAX_SCAN_LENGTH..], &before[MAX_SCAN_LENGTH..]);
    assert_eq!(buf, before);
}

#[test]
fn header_ending_at_scan_bound_is_redacted() {
    let mut state = Airlock::new();
    let mut buf = vec![b'.'; 3000];
    buf[2038..2048].copy_from_slice(b"-----BEGIN");
    buf[2048..2058].copy_from_slice(b"-----BEGIN");
    let count = scrub(&mut state, &mut buf);
    assert_eq!(count, 1);
    assert_eq!(buf[2038], REDACTION_BYTE);
    assert_eq!(buf[2048], b'-');
}

#[test]
fn second_scrub_finds_nothing_more() {
    let mut state = Airlock::new();
    let mut buf = b"xx-----BEGIN RSA PRIVATE_KEY NEEDLE_HASH_EXAMPLE_2 tail".to_vec();
    let first = scrub(&mut state, &mut buf);
    assert!(first >= 1);
    let after_first = buf.clone();
    let second = scrub(&mut state, &mut buf);
    assert!(second <= first);
    assert_eq!(buf, after_first);
}

#[test]
fn classify_reports_each_severity() {
    assert_eq!(classify(b"plain bytes"), Severity::Clean);
    assert_eq!(classify(b"-----BEGIN KEY"), Severity::Marker);
    assert_eq!(classify(b"x PRIVATE_KEY y"), Severity::Marker);
    assert_eq!(classify(b"-----BEGIN NEEDLE_HASH_EXAMPLE_1"), Severity::Needle);
    assert_eq!(classify(b""), Severity::Clean);
}

#[test]
fn header_must_open_the_window() {
    assert!(is_sensitive_window(b"-----BEGIN"));
    assert!(!is_sensitive_window(b" -----BEGIN"));
    assert!(!is_sensitive_window(b"-----BEGI"));
    assert!(is_sensitive_window(b"PRIVATE_KEY"));
    assert!(!is_sensitive_window(b"private_key"));
}

#[test]
fn needles_match_exactly() {
    assert!(window_has_needle(b"..NEEDLE_HASH_EXAMPLE_2"));
    assert!(window_has_needle(b"NEEDLE_HASH_EXAMPLE_1"));
    assert!(!window_has_needle(b"NEEDLE_HASH_EXAMPLE_3"));
    assert!(!window_has_needle(b"needle_hash_example_1"));
    assert!(!window_has_needle(b"PRIVATE_KEY"));
}
