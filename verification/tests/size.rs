use dirlist::{convert, decimal_string, hundredths_string, pad_left};

#[test]
fn convert_zero_is_right_aligned() {
    assert_eq!(convert(0), "     0B");
}

#[test]
fn convert_below_one_thousand_is_in_bytes() {
    assert_eq!(convert(999), "999 B ");
    assert_eq!(convert(1), "1 B ");
    assert_eq!(convert(100), "100 B ");
}

#[test]
fn convert_one_thousand_is_one_kilobyte() {
    assert_eq!(convert(1000), "1 KB");
}

#[test]
fn convert_one_and_a_half_million() {
    assert_eq!(convert(1_500_000), "1.5 MB");
}

#[test]
fn convert_keeps_the_sign() {
    assert_eq!(convert(-2048), "-2.05 KB");
    assert_eq!(convert(-1), "-1 B ");
    assert_eq!(convert(-1_500_000), "-1.5 MB");
}

#[test]
fn convert_rounds_to_two_places() {
    assert_eq!(convert(2048), "2.05 KB");
    assert_eq!(convert(1_234_567), "1.23 MB");
    assert_eq!(convert(1_236_000), "1.24 MB");
    assert_eq!(convert(1_001), "1 KB");
    assert_eq!(convert(1_004), "1 KB");
    assert_eq!(convert(1_006), "1.01 KB");
    assert_eq!(convert(1_100), "1.1 KB");
    assert_eq!(convert(1_010), "1.01 KB");
}

#[test]
fn convert_rounds_a_half_to_the_even_hundredth() {
    assert_eq!(convert(1_125), "1.12 KB");
    assert_eq!(convert(1_375), "1.38 KB");
    assert_eq!(convert(1_005), "1 KB");
    assert_eq!(convert(1_015), "1.02 KB");
    assert_eq!(convert(2_625_000), "2.62 MB");
}

#[test]
fn convert_picks_the_unit_before_it_rounds() {
    assert_eq!(convert(999_999), "1000 KB");
    assert_eq!(convert(999_994), "999.99 KB");
    assert_eq!(convert(999_999_999_999_999), "1000 TB");
}

#[test]
fn convert_has_nine_units() {
    assert_eq!(convert(1), "1 B ");
    assert_eq!(convert(1_000), "1 KB");
    assert_eq!(convert(1_000_000), "1 MB");
    assert_eq!(convert(1_000_000_000), "1 GB");
    assert_eq!(convert(1_000_000_000_000), "1 TB");
    assert_eq!(convert(1_000_000_000_000_000), "1 PB");
    assert_eq!(convert(1_000_000_000_000_000_000), "1 EB");
    assert_eq!(convert(1_000_000_000_000_000_000_000), "1 ZB");
    assert_eq!(convert(1_000_000_000_000_000_000_000_000), "1 YB");
}

#[test]
fn convert_stays_in_the_last_unit() {
    assert_eq!(convert(1_000_000_000_000_000_000_000_000_000), "1000 YB");
    assert_eq!(convert(i128::MAX), "170141183460469.23 YB");
    assert_eq!(convert(i128::MIN), "-170141183460469.23 YB");
}

#[test]
fn convert_of_the_largest_file_size() {
    assert_eq!(convert(i128::from(u64::MAX)), "18.45 EB");
    assert_eq!(convert(i128::from(i64::MAX)), "9.22 EB");
}

#[test]
fn convert_agrees_with_floating_point_formatting() {
    for size in [0u32, 1, 512, 999, 1_000, 1_500, 2_048, 4_096, 1_125, 1_375, 65_536, 1_500_000] {
        let value = f64::from(size);
        let expected = if value < 1.0 {
            format!("{:>6}B", value)
        } else {
            let exponent = (value.ln() / 1000f64.ln()).floor() as i32;
            let unit = ["B ", "KB", "MB"][exponent as usize];
            let scaled: f64 = format!("{:.2}", value / 1000f64.powi(exponent)).parse().unwrap();
            format!("{} {}", scaled, unit)
        };
        assert_eq!(convert(i128::from(size)), expected);
    }
}

#[test]
fn hundredths_string_drops_the_zeros_at_the_end() {
    assert_eq!(hundredths_string(150), "1.5");
    assert_eq!(hundredths_string(200), "2");
    assert_eq!(hundredths_string(205), "2.05");
    assert_eq!(hundredths_string(0), "0");
    assert_eq!(hundredths_string(5), "0.05");
    assert_eq!(hundredths_string(10), "0.1");
    assert_eq!(hundredths_string(99_999), "999.99");
    assert_eq!(hundredths_string(100_000), "1000");
}

#[test]
fn decimal_string_of_small_and_large_numbers() {
    assert_eq!(decimal_string(0), "0");
    assert_eq!(decimal_string(9), "9");
    assert_eq!(decimal_string(10), "10");
    assert_eq!(decimal_string(1_234_567_890), "1234567890");
    assert_eq!(decimal_string(u128::MAX), u128::MAX.to_string());
}

#[test]
fn pad_left_fills_the_column_from_the_left() {
    assert_eq!(pad_left("ab", 4), "  ab");
    assert_eq!(pad_left("1.5 MB", 9), "   1.5 MB");
    assert_eq!(pad_left("", 3), "   ");
    assert_eq!(pad_left("0", 6), "     0");
}

#[test]
fn pad_left_leaves_a_wide_text_alone() {
    assert_eq!(pad_left("abcd", 4), "abcd");
    assert_eq!(pad_left("abcdef", 4), "abcdef");
    assert_eq!(pad_left("abc", 0), "abc");
    assert_eq!(pad_left("170141183460469.23 YB", 9), "170141183460469.23 YB");
}

#[test]
fn pad_left_counts_characters() {
    assert_eq!(pad_left("é", 3), "  é");
    assert_eq!(pad_left("日本", 4), "  日本");
    assert_eq!(pad_left("é", 3), format!("{:>3}", "é"));
}
