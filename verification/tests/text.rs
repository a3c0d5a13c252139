use price_feed::text::{push_decimal, same_text};

fn decimal(value: i32) -> String {
    let mut out = String::from("n=");
    push_decimal(&mut out, value);
    out
}

#[test]
fn decimal_of_small_numbers() {
    assert_eq!(decimal(0), "n=0");
    assert_eq!(decimal(3), "n=3");
    assert_eq!(decimal(9), "n=9");
    assert_eq!(decimal(10), "n=10");
    assert_eq!(decimal(405), "n=405");
}

#[test]
fn decimal_of_negative_numbers() {
    assert_eq!(decimal(-1), "n=-1");
    assert_eq!(decimal(-120), "n=-120");
}

#[test]
fn decimal_at_the_limits() {
    assert_eq!(decimal(i32::MAX), "n=2147483647");
    assert_eq!(decimal(i32::MIN), "n=-2147483648");
}

#[test]
fn decimal_agrees_with_the_standard_rendering() {
    for value in [1, 7, 11, 99, 100, 101, 1000, 65535, -65536, 123456789, -987654321] {
        assert_eq!(decimal(value), format!("n={}", value));
    }
}

#[test]
fn same_text_compares_whole_texts() {
    assert!(same_text("PET", "PET"));
    assert!(!same_text("PET", "PETS"));
    assert!(!same_text("PET", "pet"));
    assert!(same_text("", ""));
    assert!(!same_text("", " "));
}
