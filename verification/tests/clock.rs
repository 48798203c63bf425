use sop_core::clock::{days_to_ymd, format_iso8601, now_iso8601, MAX_DAYS};
use sop_core::text::{decimal_len, digit_str, push_decimal, push_padded, starts_with, strip_prefix, strip_suffix};

#[test]
fn days_to_ymd_follows_the_calendar() {
    assert_eq!(days_to_ymd(0), (1970, 1, 1));
    assert_eq!(days_to_ymd(58), (1970, 2, 28));
    assert_eq!(days_to_ymd(59), (1970, 3, 1));
    assert_eq!(days_to_ymd(364), (1970, 12, 31));
    assert_eq!(days_to_ymd(365), (1971, 1, 1));
    assert_eq!(days_to_ymd(789), (1972, 2, 29));
    assert_eq!(days_to_ymd(11_016), (2000, 2, 29));
    assert_eq!(days_to_ymd(11_017), (2000, 3, 1));
    assert_eq!(days_to_ymd(20_503), (2026, 2, 19));
    assert_eq!(days_to_ymd(47_540), (2100, 2, 28));
    assert_eq!(days_to_ymd(47_541), (2100, 3, 1));
    let (_, month, day) = days_to_ymd(MAX_DAYS);
    assert!((1..=12).contains(&month) && (1..=31).contains(&day));
}

#[test]
fn timestamps_are_padded() {
    assert_eq!(format_iso8601(0), "1970-01-01T00:00:00Z");
    assert_eq!(format_iso8601(1_771_502_400), "2026-02-19T12:00:00Z");
    assert_eq!(format_iso8601(951_782_399), "2000-02-28T23:59:59Z");
    assert_eq!(format_iso8601(951_782_400), "2000-02-29T00:00:00Z");
    assert_eq!(format_iso8601(253_402_300_800), "10000-01-01T00:00:00Z");
}

#[test]
fn the_present_instant_is_a_timestamp() {
    let now = now_iso8601();
    assert_eq!(now.len(), 20);
    assert!(now.ends_with('Z'));
    assert_eq!(&now[4..5], "-");
    assert_eq!(&now[10..11], "T");
    assert!(now.as_str() > "2026-01-01T00:00:00Z");
}

#[test]
fn numbers_are_written_in_decimal() {
    for (n, text) in [(0u64, "0"), (9, "9"), (10, "10"), (1234, "1234"), (u64::MAX, "18446744073709551615")] {
        let mut out = String::from("n=");
        push_decimal(&mut out, n);
        assert_eq!(out, format!("n={text}"));
        assert_eq!(decimal_len(n), text.len());
    }
    let mut out = String::new();
    push_padded(&mut out, 7, 3);
    push_padded(&mut out, 1234, 3);
    push_padded(&mut out, 0, 0);
    push_padded(&mut out, 42, 2);
    assert_eq!(out, "0071234042");
    assert_eq!(digit_str(5), "5");
}

#[test]
fn prefixes_and_suffixes() {
    assert!(starts_with("sop_run_x", "sop_run_"));
    assert!(starts_with("abc", ""));
    assert!(!starts_with("ab", "abc"));
    assert!(!starts_with("sop_ruN_x", "sop_run_"));
    assert_eq!(strip_prefix("sop.x", "sop."), Some("x"));
    assert_eq!(strip_prefix("sop.", "sop."), Some(""));
    assert_eq!(strip_prefix("soap.x", "sop."), None);
    assert_eq!(strip_suffix("rate_7d", "_7d"), Some("rate"));
    assert_eq!(strip_suffix("_7d", "_7d"), Some(""));
    assert_eq!(strip_suffix("rate_7", "_7d"), None);
    assert_eq!(strip_suffix("7d", "_7d"), None);
    assert_eq!(strip_prefix("für.x", "für."), Some("x"));
    assert_eq!(strip_suffix("größe_7d", "_7d"), Some("größe"));
}
