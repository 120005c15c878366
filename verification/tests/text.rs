use macb_timeline::clock::{MAX_UTC_SECS, MIN_UTC_SECS};
use macb_timeline::Timestamp;
use macb_timeline::text::{
    append_str, chars_of, push_signed_decimal, str_eq, to_ascii_lowercase, trim, u64_to_decimal,
};

#[test]
fn trim_removes_unicode_white_space_at_both_ends() {
    assert_eq!(trim("\u{3000}\t x y \u{2028}\n"), "x y");
    assert_eq!(trim("\u{200B}x"), "\u{200B}x");
    assert_eq!(trim("   "), "");
    assert_eq!(trim(""), "");
}

#[test]
fn ascii_lowercase_leaves_other_characters() {
    assert_eq!(to_ascii_lowercase("SHA-256 Ä"), "sha-256 Ä");
}

#[test]
fn decimal_rendering() {
    assert_eq!(u64_to_decimal(0), "0");
    assert_eq!(u64_to_decimal(18_446_744_073_709_551_615), "18446744073709551615");
    let mut s = String::from("t=");
    push_signed_decimal(&mut s, i64::MIN);
    assert_eq!(s, "t=-9223372036854775808");
    let mut s = String::new();
    push_signed_decimal(&mut s, 42);
    assert_eq!(s, "42");
}

#[test]
fn small_text_helpers() {
    assert_eq!(chars_of("ab"), vec!['a', 'b']);
    let mut s = String::from("a");
    append_str(&mut s, "bc");
    assert_eq!(s, "abc");
    assert!(str_eq("x", "x"));
    assert!(!str_eq("x", "xy"));
}

#[test]
fn timestamps_cover_exactly_chronos_range() {
    assert!(Timestamp::from_parts(MIN_UTC_SECS, 0).is_some());
    assert!(Timestamp::from_parts(MIN_UTC_SECS - 1, 999_999_999).is_none());
    assert!(Timestamp::from_parts(MAX_UTC_SECS, 999_999_999).is_some());
    assert!(Timestamp::from_parts(MAX_UTC_SECS + 1, 0).is_none());
    assert!(Timestamp::from_parts(59, 1_500_000_000).is_some());
    assert!(Timestamp::from_parts(58, 1_500_000_000).is_none());
    assert!(Timestamp::from_parts(59, 2_000_000_000).is_none());
    assert!(Timestamp::from_parts(-1, 1_000_000_000).is_some());
}
