use foxglove::text::{ends_with, i64_to_decimal, starts_with, str_eq, u64_to_decimal};

#[test]
fn test_str_eq() {
    assert!(str_eq("", ""));
    assert!(str_eq("abc", "abc"));
    assert!(!str_eq("abc", "abd"));
    assert!(!str_eq("abc", "ab"));
    assert!(str_eq("naïve", "naïve"));
}

#[test]
fn test_prefix_suffix() {
    assert!(starts_with("foxglove/Log.proto", "foxglove/"));
    assert!(!starts_with("fox", "foxglove/"));
    assert!(ends_with("foxglove/Log.proto", ".proto"));
    assert!(!ends_with("foxglove/Log.proto", ".rs"));
    assert!(starts_with("abc", ""));
    assert!(ends_with("abc", ""));
}

#[test]
fn test_decimal() {
    assert_eq!(u64_to_decimal(0), "0");
    assert_eq!(u64_to_decimal(7), "7");
    assert_eq!(u64_to_decimal(1234567890), "1234567890");
    assert_eq!(u64_to_decimal(u64::MAX), "18446744073709551615");
    assert_eq!(i64_to_decimal(0), "0");
    assert_eq!(i64_to_decimal(-1), "-1");
    assert_eq!(i64_to_decimal(i64::MIN), "-9223372036854775808");
    assert_eq!(i64_to_decimal(i64::MAX), "9223372036854775807");
}
