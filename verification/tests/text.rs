use rs_histver::text::{str_contains, str_eq, str_lt, u32_to_decimal};

#[test]
fn decimal_rendering() {
    assert_eq!(u32_to_decimal(0), "0");
    assert_eq!(u32_to_decimal(7), "7");
    assert_eq!(u32_to_decimal(10), "10");
    assert_eq!(u32_to_decimal(4294967295), "4294967295");
}

#[test]
fn lexicographic_order() {
    assert!(str_lt("2023-12-31", "2024-01-01"));
    assert!(!str_lt("2024-01-01", "2024-01-01"));
    assert!(str_lt("2024", "2024-01"));
    assert!(!str_lt("b", "abc"));
}

#[test]
fn equality_and_containment() {
    assert!(str_eq("beta", "beta"));
    assert!(!str_eq("beta", "betas"));
    assert!(str_contains("1.76.0-beta.1", "beta"));
    assert!(str_contains("abc", ""));
    assert!(!str_contains("ab", "abc"));
}
