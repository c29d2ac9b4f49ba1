use darklua::generator::number::{digit_character, push_digits, push_signed};

fn digits(value: u64, base: u64) -> String {
    let mut text = String::new();
    push_digits(&mut text, value, base);
    text
}

fn signed(value: i64) -> String {
    let mut text = String::new();
    push_signed(&mut text, value);
    text
}

#[test]
fn digit_character_gives_lower_case_digits() {
    let expected = "0123456789abcdef";
    for (digit, character) in expected.chars().enumerate() {
        assert_eq!(digit_character(digit as u64), character);
    }
}

#[test]
fn push_digits_in_base_ten() {
    assert_eq!(digits(0, 10), "0");
    assert_eq!(digits(7, 10), "7");
    assert_eq!(digits(10, 10), "10");
    assert_eq!(digits(1234567890, 10), "1234567890");
    assert_eq!(digits(u64::MAX, 10), "18446744073709551615");
}

#[test]
fn push_digits_in_base_sixteen() {
    assert_eq!(digits(0, 16), "0");
    assert_eq!(digits(15, 16), "f");
    assert_eq!(digits(16, 16), "10");
    assert_eq!(digits(0xabcdef, 16), "abcdef");
    assert_eq!(digits(u64::MAX, 16), "ffffffffffffffff");
}

#[test]
fn push_digits_in_base_two() {
    assert_eq!(digits(0, 2), "0");
    assert_eq!(digits(1, 2), "1");
    assert_eq!(digits(6, 2), "110");
    assert_eq!(digits(1 << 63, 2), format!("1{}", "0".repeat(63)));
}

#[test]
fn push_digits_agrees_with_the_standard_formatting() {
    for value in [0u64, 1, 9, 10, 99, 100, 255, 256, 4095, 65535, 1 << 40, u64::MAX - 1] {
        assert_eq!(digits(value, 10), format!("{}", value));
        assert_eq!(digits(value, 16), format!("{:x}", value));
        assert_eq!(digits(value, 2), format!("{:b}", value));
        assert_eq!(digits(value, 8), format!("{:o}", value));
    }
}

#[test]
fn push_digits_appends_to_the_text() {
    let mut text = "0x".to_string();
    push_digits(&mut text, 255, 16);
    push_digits(&mut text, 0, 16);
    assert_eq!(text, "0xff0");
}

#[test]
fn push_signed_writes_a_minus_before_a_negative_value() {
    assert_eq!(signed(0), "0");
    assert_eq!(signed(5), "5");
    assert_eq!(signed(-5), "-5");
    assert_eq!(signed(-10), "-10");
    assert_eq!(signed(i64::MAX), "9223372036854775807");
    assert_eq!(signed(i64::MIN), "-9223372036854775808");
    assert_eq!(signed(i64::MIN + 1), "-9223372036854775807");
}

#[test]
fn push_signed_agrees_with_the_standard_formatting() {
    for value in [0i64, 1, -1, 9, -9, 10, -10, 12345, -12345, i64::MAX, i64::MIN] {
        assert_eq!(signed(value), format!("{}", value));
    }
}
