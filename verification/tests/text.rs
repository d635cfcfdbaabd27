use eg_gui::text::{str_equal, str_less, str_starts_with, u64_to_decimal};

#[test]
fn decimal_rendering() {
    assert_eq!(u64_to_decimal(0), "0");
    assert_eq!(u64_to_decimal(7), "7");
    assert_eq!(u64_to_decimal(10), "10");
    assert_eq!(u64_to_decimal(4096), "4096");
    assert_eq!(u64_to_decimal(u64::MAX), u64::MAX.to_string());
}

#[test]
fn prefixes_and_equality() {
    assert!(str_starts_with("abc123", "abc"));
    assert!(str_starts_with("abc", ""));
    assert!(!str_starts_with("ab", "abc"));
    assert!(str_starts_with("héllo", "hé"));
    assert!(str_equal("", ""));
    assert!(!str_equal("a", "ab"));
}

#[test]
fn less_is_the_order_of_strings() {
    let words = ["", "a", "B", "ab", "b", "é", "z", "Z1", "aa"];
    for x in words {
        for y in words {
            assert_eq!(str_less(x, y), x < y, "{x:?} < {y:?}");
        }
    }
}
