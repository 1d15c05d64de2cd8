use json_schema::number::Number;

fn n(negative: bool, mantissa: u64, exponent: i16) -> Number {
    Number::new(negative, mantissa, exponent)
}

#[test]
fn new_keeps_its_arguments() {
    let number = Number::new(true, 35, -1);
    assert_eq!(number.negative, true);
    assert_eq!(number.mantissa, 35);
    assert_eq!(number.exponent, -1);
}

#[test]
fn positive_means_above_zero() {
    assert!(n(false, 1, 0).is_positive());
    assert!(n(false, 1, -400).is_positive());
    assert!(!n(false, 0, 0).is_positive());
    assert!(!n(false, 0, 12).is_positive());
    assert!(!n(true, 1, 0).is_positive());
    assert!(!n(true, 0, 0).is_positive());
}

#[test]
fn multiples_at_one_power_of_ten() {
    assert!(n(false, 12, 0).is_multiple_of(&n(false, 4, 0)));
    assert!(!n(false, 13, 0).is_multiple_of(&n(false, 4, 0)));
    assert!(n(false, 4, 0).is_multiple_of(&n(false, 4, 0)));
    assert!(!n(false, 3, 0).is_multiple_of(&n(false, 4, 0)));
}

#[test]
fn multiples_where_the_number_has_the_larger_exponent() {
    assert!(n(false, 7, 0).is_multiple_of(&n(false, 35, -1)));
    assert!(!n(false, 6, 0).is_multiple_of(&n(false, 35, -1)));
    assert!(n(false, 1, 3).is_multiple_of(&n(false, 25, 0)));
    assert!(n(false, 1, 2).is_multiple_of(&n(false, 1, 1)));
    assert!(!n(false, 1, 2).is_multiple_of(&n(false, 3, 0)));
    assert!(n(false, 3, 300).is_multiple_of(&n(false, 3, -300)));
    assert!(!n(false, 1, 300).is_multiple_of(&n(false, 3, -300)));
    assert!(n(false, 1, 32767).is_multiple_of(&n(false, 1, -32768)));
    assert!(!n(false, 1, 32767).is_multiple_of(&n(false, 7, -32768)));
}

#[test]
fn multiples_where_the_divisor_has_the_larger_exponent() {
    assert!(n(false, 100, 0).is_multiple_of(&n(false, 1, 1)));
    assert!(n(false, 100, 0).is_multiple_of(&n(false, 1, 2)));
    assert!(!n(false, 100, 0).is_multiple_of(&n(false, 1, 3)));
    assert!(!n(false, 1, 0).is_multiple_of(&n(false, 1, 1)));
    assert!(n(false, 350, -2).is_multiple_of(&n(false, 35, -1)));
    assert!(!n(false, 351, -2).is_multiple_of(&n(false, 35, -1)));
    assert!(!n(false, 1, -300).is_multiple_of(&n(false, 1, 300)));
    assert!(n(false, 18446744073709551610, 0).is_multiple_of(&n(false, 1844674407370955161, 1)));
    assert!(!n(false, 18446744073709551615, 0).is_multiple_of(&n(false, 1844674407370955161, 1)));
    assert!(!n(false, 18446744073709551615, -32768).is_multiple_of(&n(false, 18446744073709551615, 32767)));
}

#[test]
fn three_tenths_is_a_multiple_of_one_tenth() {
    assert!(n(false, 3, -1).is_multiple_of(&n(false, 1, -1)));
    assert!(n(false, 30, -2).is_multiple_of(&n(false, 1, -1)));
    assert!(!n(false, 31, -2).is_multiple_of(&n(false, 1, -1)));
}

#[test]
fn the_sign_plays_no_part_in_divisibility() {
    assert!(n(true, 7, 0).is_multiple_of(&n(false, 35, -1)));
    assert!(n(false, 7, 0).is_multiple_of(&n(true, 35, -1)));
    assert!(!n(true, 6, 0).is_multiple_of(&n(false, 35, -1)));
}

#[test]
fn zero_is_a_multiple_of_all_but_zero() {
    assert!(n(false, 0, 0).is_multiple_of(&n(false, 35, -1)));
    assert!(n(false, 0, -5).is_multiple_of(&n(false, 35, 7)));
    assert!(n(false, 0, 7).is_multiple_of(&n(false, 35, -5)));
    assert!(!n(false, 0, 0).is_multiple_of(&n(false, 0, 0)));
    assert!(!n(false, 5, 0).is_multiple_of(&n(false, 0, 0)));
    assert!(!n(false, 5, 3).is_multiple_of(&n(false, 0, -3)));
}

#[test]
fn divisibility_agrees_with_the_remainder_of_small_integers() {
    for a in 0u64..60 {
        for b in 1u64..13 {
            assert_eq!(n(false, a, 0).is_multiple_of(&n(false, b, 0)), a % b == 0);
            assert_eq!(n(false, a, 1).is_multiple_of(&n(false, b, 0)), (a * 10) % b == 0);
            assert_eq!(n(false, a, 0).is_multiple_of(&n(false, b, 1)), a % (b * 10) == 0);
            assert_eq!(n(false, a, -1).is_multiple_of(&n(false, b, 1)), a % (b * 100) == 0);
        }
    }
}

#[test]
fn text_of_whole_numbers() {
    assert_eq!(n(false, 7, 0).to_text(), "7");
    assert_eq!(n(false, 0, 0).to_text(), "0");
    assert_eq!(n(false, 12, 2).to_text(), "1200");
    assert_eq!(n(false, 10, 0).to_text(), "10");
    assert_eq!(n(false, 18446744073709551615, 0).to_text(), "18446744073709551615");
    assert_eq!(n(false, 1234567890, 1).to_text(), "12345678900");
}

#[test]
fn text_with_the_point_inside_the_digits() {
    assert_eq!(n(false, 35, -1).to_text(), "3.5");
    assert_eq!(n(false, 12345, -2).to_text(), "123.45");
    assert_eq!(n(false, 350, -2).to_text(), "3.50");
    assert_eq!(n(false, 100, -1).to_text(), "10.0");
}

#[test]
fn text_with_the_point_before_the_digits() {
    assert_eq!(n(false, 5, -1).to_text(), "0.5");
    assert_eq!(n(false, 5, -3).to_text(), "0.005");
    assert_eq!(n(false, 35, -2).to_text(), "0.35");
    assert_eq!(n(false, 123, -3).to_text(), "0.123");
}

#[test]
fn text_of_numbers_below_zero_and_of_zero() {
    assert_eq!(n(true, 35, -1).to_text(), "-3.5");
    assert_eq!(n(true, 1, 0).to_text(), "-1");
    assert_eq!(n(true, 5, -3).to_text(), "-0.005");
    assert_eq!(n(true, 0, 0).to_text(), "0");
    assert_eq!(n(false, 0, -4).to_text(), "0");
    assert_eq!(n(false, 0, 4).to_text(), "0");
}

#[test]
fn text_reads_back_as_the_same_double() {
    let cases: [(u64, i16, f64); 6] =
        [(35, -1, 3.5), (7, 0, 7.0), (1, -1, 0.1), (25, -2, 0.25), (15, 2, 1500.0), (1, -7, 0.0000001)];
    for (mantissa, exponent, expected) in cases.iter() {
        let text = n(false, *mantissa, *exponent).to_text();
        assert_eq!(text.parse::<f64>().unwrap(), *expected);
    }
}

#[test]
fn equal_fields_make_equal_numbers() {
    assert_eq!(n(false, 35, -1), n(false, 35, -1));
    assert_ne!(n(false, 35, -1), n(false, 350, -2));
    assert_ne!(n(false, 35, -1), n(true, 35, -1));
}
