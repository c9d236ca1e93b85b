use pathtracer::scene::number::{parse_count, quantity, Quantity};

fn chars(s: &str) -> Vec<char> {
    s.chars().collect()
}

#[test]
fn counts_are_plain_decimal_numbers() {
    assert_eq!(parse_count(&chars("0")), Some(0));
    assert_eq!(parse_count(&chars("7")), Some(7));
    assert_eq!(parse_count(&chars("10")), Some(10));
    assert_eq!(parse_count(&chars("1234567")), Some(1234567));
}

#[test]
fn counts_may_have_a_plus_sign_and_leading_zeros() {
    assert_eq!(parse_count(&chars("+5")), Some(5));
    assert_eq!(parse_count(&chars("007")), Some(7));
    assert_eq!(parse_count(&chars("+000")), Some(0));
}

#[test]
fn counts_reject_everything_else() {
    assert_eq!(parse_count(&chars("")), None);
    assert_eq!(parse_count(&chars("+")), None);
    assert_eq!(parse_count(&chars("-5")), None);
    assert_eq!(parse_count(&chars("-0")), None);
    assert_eq!(parse_count(&chars("++5")), None);
    assert_eq!(parse_count(&chars("5+")), None);
    assert_eq!(parse_count(&chars("12a")), None);
    assert_eq!(parse_count(&chars("a12")), None);
    assert_eq!(parse_count(&chars("1.0")), None);
    assert_eq!(parse_count(&chars("1_0")), None);
    assert_eq!(parse_count(&chars("٣")), None);
}

#[test]
fn counts_stop_at_the_machine_word() {
    let max = usize::MAX.to_string();
    assert_eq!(parse_count(&chars(&max)), Some(usize::MAX));
    let padded = format!("+0000{}", max);
    assert_eq!(parse_count(&chars(&padded)), Some(usize::MAX));
    let mut digits: Vec<char> = chars(&max);
    let last = digits.len() - 1;
    digits[last] = char::from_digit(digits[last].to_digit(10).unwrap() + 1, 10).unwrap();
    assert_eq!(parse_count(&digits), None);
    let longer = format!("{}0", max);
    assert_eq!(parse_count(&chars(&longer)), None);
    assert_eq!(parse_count(&chars("99999999999999999999999999999999999999")), None);
}

#[test]
fn counts_agree_with_std() {
    let fields = [
        "", "0", "1", "+1", "-1", "+", "-", "00", "0009", "42", "4 2", " 42", "42 ", "4_2", "0x10",
        "1e3", "18446744073709551615", "18446744073709551616", "4294967295", "4294967296",
        "+4294967296", "999999999999999999999", "١٢٣", "12٣",
    ];
    for field in fields.iter() {
        assert_eq!(parse_count(&chars(field)), field.parse::<usize>().ok(), "{:?}", field);
    }
}

#[test]
fn a_field_without_underscore_is_one_value() {
    assert_eq!(quantity(&chars("1.5")), Some(Quantity::Exact(chars("1.5"))));
    assert_eq!(quantity(&chars("-3")), Some(Quantity::Exact(chars("-3"))));
    assert_eq!(quantity(&chars("")), Some(Quantity::Exact(chars(""))));
    assert_eq!(quantity(&chars("abc")), Some(Quantity::Exact(chars("abc"))));
}

#[test]
fn a_field_with_one_underscore_is_a_range() {
    assert_eq!(quantity(&chars("0_1")), Some(Quantity::Between(chars("0"), chars("1"))));
    assert_eq!(
        quantity(&chars("-0.5_12.25")),
        Some(Quantity::Between(chars("-0.5"), chars("12.25")))
    );
    assert_eq!(quantity(&chars("_")), Some(Quantity::Between(chars(""), chars(""))));
    assert_eq!(quantity(&chars("1_")), Some(Quantity::Between(chars("1"), chars(""))));
    assert_eq!(quantity(&chars("_1")), Some(Quantity::Between(chars(""), chars("1"))));
}

#[test]
fn a_field_with_more_underscores_is_nothing() {
    assert_eq!(quantity(&chars("1_2_3")), None);
    assert_eq!(quantity(&chars("__")), None);
    assert_eq!(quantity(&chars("1__2")), None);
    assert_eq!(quantity(&chars("_1_")), None);
    assert_eq!(quantity(&chars("a_b_c_d")), None);
}

#[test]
fn quantities_split_as_std_does() {
    let fields = ["", "1", "1_2", "1_2_3", "_", "__", "a_", "_a", "1.5_2.5", "x_y_z_w", "0.0"];
    for field in fields.iter() {
        let parts: Vec<Vec<char>> = field.split('_').map(|p| p.chars().collect()).collect();
        let expected = match parts.len() {
            1 => Some(Quantity::Exact(parts[0].clone())),
            2 => Some(Quantity::Between(parts[0].clone(), parts[1].clone())),
            _ => None,
        };
        assert_eq!(quantity(&chars(field)), expected, "{:?}", field);
    }
}
