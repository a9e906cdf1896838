use live_mix::number::{
    is_digit_char, is_float_text, parse_i32, parse_i64, parse_scaled, parse_usize, Scaled,
};

#[test]
fn usize_takes_digits_and_a_plus() {
    assert_eq!(parse_usize("0"), Some(0));
    assert_eq!(parse_usize("12"), Some(12));
    assert_eq!(parse_usize("+7"), Some(7));
    assert_eq!(parse_usize("007"), Some(7));
}

#[test]
fn usize_refuses_everything_else() {
    for s in ["", "+", "-1", "1a", " 1", "1 ", "1.0", "$1", "++1", "١"] {
        assert_eq!(parse_usize(s), None, "{:?}", s);
    }
}

#[test]
fn usize_agrees_with_the_standard_library() {
    for s in ["18446744073709551615", "18446744073709551616", "99999999999999999999999999999999999999999", "4294967296", "+0", "000000000000000000000000000001"] {
        assert_eq!(parse_usize(s), s.parse::<usize>().ok(), "{:?}", s);
    }
}

#[test]
fn i32_takes_a_sign_and_digits() {
    assert_eq!(parse_i32("640"), Some(640));
    assert_eq!(parse_i32("-5"), Some(-5));
    assert_eq!(parse_i32("+5"), Some(5));
    assert_eq!(parse_i32("-0"), Some(0));
    assert_eq!(parse_i32("2147483647"), Some(i32::MAX));
    assert_eq!(parse_i32("-2147483648"), Some(i32::MIN));
}

#[test]
fn i32_refuses_what_does_not_fit_or_is_no_number() {
    for s in ["2147483648", "-2147483649", "", "-", "+", "1.5", "abc", "--1", "99999999999999999999999999"] {
        assert_eq!(parse_i32(s), None, "{:?}", s);
        assert_eq!(s.parse::<i32>().ok(), None);
    }
}

#[test]
fn seconds_become_nanoseconds() {
    assert_eq!(parse_scaled("2.0", 9), Some(Scaled { negative: false, magnitude: 2_000_000_000 }));
    assert_eq!(parse_scaled("2", 9), Some(Scaled { negative: false, magnitude: 2_000_000_000 }));
    assert_eq!(parse_scaled("0", 9), Some(Scaled { negative: false, magnitude: 0 }));
    assert_eq!(parse_scaled(".5", 9), Some(Scaled { negative: false, magnitude: 500_000_000 }));
    assert_eq!(parse_scaled("5.", 9), Some(Scaled { negative: false, magnitude: 5_000_000_000 }));
    assert_eq!(parse_scaled("+1.25", 9), Some(Scaled { negative: false, magnitude: 1_250_000_000 }));
    assert_eq!(parse_scaled("12.345", 6), Some(Scaled { negative: false, magnitude: 12_345_000 }));
    assert_eq!(parse_scaled("12.345", 0), Some(Scaled { negative: false, magnitude: 12 }));
}

#[test]
fn what_is_below_one_unit_is_cut_off() {
    assert_eq!(parse_scaled("0.0000000019", 9).unwrap().magnitude, 1);
    assert_eq!(parse_scaled("0.9999999999", 9).unwrap().magnitude, 999_999_999);
    assert_eq!(parse_scaled("1.9", 0).unwrap().magnitude, 1);
}

#[test]
fn what_is_no_float_is_no_time() {
    for s in ["", ".", "+", "-", "+.", "1.2.3", "1e", "e3", "1e+", "1e1.5", "infe5", "nane1", "1,5", " 1", "1 ", "0x10", "--1", "soon"] {
        assert_eq!(parse_scaled(s, 9), None, "{:?}", s);
        assert!(s.parse::<f64>().is_err());
    }
}

#[test]
fn an_exponent_moves_the_point() {
    let mag = |s: &str, places: usize| parse_scaled(s, places).unwrap().magnitude;
    assert_eq!(mag("1e3", 9), 1_000_000_000_000);
    assert_eq!(mag("1e3", 6), 1_000_000_000);
    assert_eq!(mag("1e0", 9), 1_000_000_000);
    assert_eq!(mag("2.5E-1", 9), 250_000_000);
    assert_eq!(mag("25e-1", 9), 2_500_000_000);
    assert_eq!(mag("0.000001e6", 9), 1_000_000_000);
    assert_eq!(mag("123.456e+2", 0), 12_345);
    assert_eq!(mag("123.456e-2", 0), 1);
    assert_eq!(mag("123.456e-3", 0), 0);
    assert_eq!(mag("1e-9", 9), 1);
    assert_eq!(mag("1e-10", 9), 0);
    assert_eq!(mag("9.99e-10", 9), 0);
    assert_eq!(mag("00012e-0", 2), 1200);
    assert_eq!(mag(".5e1", 0), 5);
    assert_eq!(mag("5.e-1", 1), 5);
}

#[test]
fn a_far_exponent_gives_nothing_or_the_largest_value() {
    let mag = |s: &str| parse_scaled(s, 9).unwrap().magnitude;
    assert_eq!(mag("1.5e300"), u64::MAX);
    assert_eq!(mag("1e11"), u64::MAX);
    assert_eq!(mag("1e10"), 10_000_000_000_000_000_000);
    assert_eq!(mag("0.0000001e99999999999999999999999999999999999999999999999"), u64::MAX);
    assert_eq!(mag("0e99999999999999999999999999999999999999999999999"), 0);
    assert_eq!(mag("0.000e18446744073709551616"), 0);
    assert_eq!(mag("7e-99999999999999999999999999999999999999999999999"), 0);
    assert_eq!(mag("7e-18446744073709551616"), 0);
    assert_eq!(mag("1e18446744073709551616"), u64::MAX);
    assert_eq!(mag("1e1329227995784915872903807060280344576"), u64::MAX);
    assert_eq!(mag("1e-1329227995784915872903807060280344576"), 0);
}

#[test]
fn an_infinity_is_the_largest_value_and_no_number_is_zero() {
    for s in ["inf", "+inf", "Infinity", "INF"] {
        let v = parse_scaled(s, 9).unwrap();
        assert_eq!((v.unsigned(), v.signed()), (u64::MAX, i64::MAX), "{:?}", s);
        assert_eq!((s.parse::<f64>().unwrap() * 1e9) as u64, u64::MAX);
    }
    let v = parse_scaled("-inf", 9).unwrap();
    assert_eq!((v.unsigned(), v.signed()), (0, i64::MIN));
    assert_eq!((f64::NEG_INFINITY * 1e9) as i64, i64::MIN);
    for s in ["nan", "NaN", "-nan", "+NAN"] {
        let v = parse_scaled(s, 9).unwrap();
        assert_eq!((v.unsigned(), v.signed()), (0, 0), "{:?}", s);
        assert_eq!((s.parse::<f64>().unwrap() * 1e9) as i64, 0);
    }
}

#[test]
fn times_agree_with_the_float_reader_where_it_is_exact() {
    for s in ["0", "2", "2.0", "0.5", "1e3", "25e-1", "-3", "1e-3", "4E2", "0.25", "1.5e1", "inf", "-inf", "nan", "1e300", "-1e300"] {
        let v = parse_scaled(s, 9).unwrap();
        let f = s.parse::<f64>().unwrap() * 1_000_000_000.0;
        assert_eq!(v.unsigned(), f as u64, "{:?}", s);
        assert_eq!(v.signed(), f as i64, "{:?}", s);
    }
}

#[test]
fn a_magnitude_is_held_at_the_largest_value() {
    let big = parse_scaled("18446744073.709551616", 9).unwrap();
    assert_eq!(big.magnitude, u64::MAX);
    let just = parse_scaled("18446744073.709551615", 9).unwrap();
    assert_eq!(just.magnitude, u64::MAX);
    let below = parse_scaled("18446744073.709551614", 9).unwrap();
    assert_eq!(below.magnitude, u64::MAX - 1);
    let huge = parse_scaled("99999999999999999999999999999999999999999999", 9).unwrap();
    assert_eq!(huge.magnitude, u64::MAX);
}

#[test]
fn a_negative_value_counts_as_zero_unsigned() {
    let v = parse_scaled("-1.5", 9).unwrap();
    assert!(v.negative);
    assert_eq!(v.magnitude, 1_500_000_000);
    assert_eq!(v.unsigned(), 0);
    assert_eq!(v.signed(), -1_500_000_000);
    assert_eq!(parse_scaled("1.5", 9).unwrap().unsigned(), 1_500_000_000);
    assert_eq!(parse_scaled("-0", 9).unwrap().signed(), 0);
}

#[test]
fn a_signed_value_is_held_at_the_ends_of_its_range() {
    assert_eq!(Scaled { negative: false, magnitude: u64::MAX }.signed(), i64::MAX);
    assert_eq!(Scaled { negative: false, magnitude: i64::MAX as u64 }.signed(), i64::MAX);
    assert_eq!(Scaled { negative: false, magnitude: i64::MAX as u64 + 1 }.signed(), i64::MAX);
    assert_eq!(Scaled { negative: true, magnitude: u64::MAX }.signed(), i64::MIN);
    assert_eq!(Scaled { negative: true, magnitude: 1u64 << 63 }.signed(), i64::MIN);
    assert_eq!(Scaled { negative: true, magnitude: (1u64 << 63) - 1 }.signed(), i64::MIN + 1);
    assert_eq!(Scaled { negative: true, magnitude: 7 }.signed(), -7);
}

#[test]
fn digits_are_zero_to_nine() {
    for c in ['0', '5', '9'] {
        assert!(is_digit_char(c));
    }
    for c in ['/', ':', 'a', ' ', '٣'] {
        assert!(!is_digit_char(c));
    }
}

#[test]
fn i64_takes_a_sign_and_digits() {
    assert_eq!(parse_i64("3000000000"), Some(3_000_000_000));
    assert_eq!(parse_i64("-12"), Some(-12));
    assert_eq!(parse_i64("+12"), Some(12));
    for s in ["9223372036854775807", "-9223372036854775808", "9223372036854775808", "-9223372036854775809", "", "-", "1.0", "18446744073709551616", "-18446744073709551616"] {
        assert_eq!(parse_i64(s), s.parse::<i64>().ok(), "{:?}", s);
    }
}

#[test]
fn floats_are_what_the_standard_library_reads_as_floats() {
    for s in [
        "0", "1", "-1", "+1", "1.5", ".5", "5.", "-.5", "+5.", "1e3", "1E3", "1e+3", "1e-3", "-1.5e10", ".5e1", "5.e1",
        "inf", "-inf", "+inf", "INF", "Infinity", "-infinity", "iNfInItY", "nan", "NaN", "-nan", "+NAN",
        "000.000", "1e00000000000000000000000000001", "123456789012345678901234567890.5",
        "", ".", "+", "-", "e", "e5", "1e", "1e+", "1e-", ".e1", "1e1.5", "1e1e1", "1.2.3", "in", "infinit", "infinityy",
        "na", "nann", "++1", "+-1", "1 ", " 1", "1_000", "0x10", "1f", "1.0f64", "١", "i nf", "-", "+e1", "1ee1", "1e 1",
    ] {
        assert_eq!(is_float_text(s), s.parse::<f64>().is_ok(), "{:?}", s);
    }
}
