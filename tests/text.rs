use migrator_core::text::{push_decimal, text_contains, text_ends_with, text_equal, text_lt};

#[test]
fn decimal_text() {
    let mut s = String::from("n=");
    push_decimal(&mut s, 0);
    assert_eq!(s, "n=0");
    let mut s = String::new();
    push_decimal(&mut s, u64::MAX);
    assert_eq!(s, "18446744073709551615");
}

#[test]
fn searching_text() {
    assert!(text_contains("a.down.sql", ".down"));
    assert!(text_contains("abc", ""));
    assert!(!text_contains("a.up.sql", ".down"));
    assert!(!text_contains("ab", "abc"));
    assert!(text_ends_with("x.sql", ".sql"));
    assert!(!text_ends_with("x.sqlx", ".sql"));
    assert!(text_equal("héllo", "héllo"));
    assert!(!text_equal("hello", "hellö"));
}

#[test]
fn ordering_text() {
    assert!(text_lt("20240101_a.sql", "20240102_b.sql"));
    assert!(!text_lt("20240102_b.sql", "20240101_a.sql"));
    assert!(text_lt("a", "ab"));
    assert!(!text_lt("ab", "ab"));
    assert!(text_lt("", "a"));
    assert!(text_lt("Z", "a"));
    assert!(text_lt("z", "é"));
}
