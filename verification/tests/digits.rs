use fluent_codes_rust::digits::{decimal_text, zero_padded_text};

#[test]
fn zero_is_six_zeros() {
    assert_eq!(zero_padded_text(0, 6), "000000");
}

#[test]
fn short_numbers_get_zeros_in_front() {
    assert_eq!(zero_padded_text(7, 6), "000007");
    assert_eq!(zero_padded_text(42, 6), "000042");
    assert_eq!(zero_padded_text(1000, 6), "001000");
    assert_eq!(zero_padded_text(99_999, 6), "099999");
}

#[test]
fn six_digit_numbers_stand_as_they_are() {
    assert_eq!(zero_padded_text(100_000, 6), "100000");
    assert_eq!(zero_padded_text(887_709, 6), "887709");
    assert_eq!(zero_padded_text(999_998, 6), "999998");
    assert_eq!(zero_padded_text(999_999, 6), "999999");
}

#[test]
fn longer_numbers_are_not_cut() {
    assert_eq!(zero_padded_text(1_000_000, 6), "1000000");
    assert_eq!(zero_padded_text(u32::MAX, 6), "4294967295");
}

#[test]
fn other_widths() {
    assert_eq!(zero_padded_text(5, 0), "5");
    assert_eq!(zero_padded_text(5, 1), "5");
    assert_eq!(zero_padded_text(5, 3), "005");
    assert_eq!(zero_padded_text(0, 1), "0");
}

#[test]
fn padded_text_agrees_with_format() {
    for n in [0u32, 1, 9, 10, 99, 100, 12_345, 654_321, 999_999, 1_234_567] {
        assert_eq!(zero_padded_text(n, 6), format!("{:06}", n));
        assert_eq!(zero_padded_text(n, 6), format!("{:#06}", n));
    }
}

#[test]
fn padded_text_spells_its_number() {
    for n in [0u32, 3, 70, 4_200, 500_000, 999_999] {
        let text = zero_padded_text(n, 6);
        assert_eq!(text.chars().count(), 6);
        assert!(text.chars().all(|c| c.is_ascii_digit()));
        assert_eq!(text.parse::<u32>().unwrap(), n);
    }
}

#[test]
fn decimal_of_small_numbers() {
    assert_eq!(decimal_text(0), "0");
    assert_eq!(decimal_text(6), "6");
    assert_eq!(decimal_text(10), "10");
    assert_eq!(decimal_text(12345), "12345");
}

#[test]
fn decimal_of_negative_numbers() {
    assert_eq!(decimal_text(-1), "-1");
    assert_eq!(decimal_text(-60), "-60");
}

#[test]
fn decimal_of_the_ends_of_the_range() {
    assert_eq!(decimal_text(i32::MAX), "2147483647");
    assert_eq!(decimal_text(i32::MIN), "-2147483648");
}

#[test]
fn decimal_agrees_with_format() {
    for n in [0, 1, -1, 9, -9, 10, 100, -100, 65_536, -65_536, i32::MAX, i32::MIN] {
        assert_eq!(decimal_text(n), format!("{}", n));
    }
}
