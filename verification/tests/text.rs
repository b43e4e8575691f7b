use quwue::text::{str_eq, str_eq_ci, trim, u64_to_string};

#[test]
fn decimal_rendering() {
    assert_eq!(u64_to_string(0), "0");
    assert_eq!(u64_to_string(7), "7");
    assert_eq!(u64_to_string(10), "10");
    assert_eq!(u64_to_string(4021), "4021");
    assert_eq!(u64_to_string(u64::MAX), "18446744073709551615");
}

#[test]
fn trimming() {
    assert_eq!(trim("  ok  "), "ok");
    assert_eq!(trim("ok"), "ok");
    assert_eq!(trim(" \t\r\n "), "");
    assert_eq!(trim(""), "");
    assert_eq!(trim("a b"), "a b");
}

#[test]
fn case_insensitive_comparison() {
    assert!(str_eq_ci("OK", "ok"));
    assert!(str_eq_ci("Yes", "yES"));
    assert!(!str_eq_ci("ok", "oka"));
    assert!(!str_eq_ci("0k", "ok"));
    assert!(str_eq("same", "same"));
    assert!(!str_eq("same", "Same"));
}
