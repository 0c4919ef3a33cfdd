use tantivy_bridge::number::{classify, sortable, to_u64, whole_i64, whole_u64, Number};

fn samples() -> Vec<f64> {
    let mut out = vec![
        0.0,
        -0.0,
        1.0,
        -1.0,
        0.5,
        -0.5,
        0.999_999_999,
        1.5,
        2.0,
        3.0,
        -3.0,
        3.5,
        255.0,
        256.0,
        1e10,
        -1e10,
        1e15 + 0.5,
        4503599627370496.0,
        4503599627370497.0,
        9007199254740992.0,
        9007199254740993.0,
        9223372036854774784.0,
        9223372036854775807.0,
        9223372036854775808.0,
        9223372036854777856.0,
        -9223372036854775808.0,
        -9223372036854777856.0,
        18446744073709549568.0,
        18446744073709551615.0,
        18446744073709551616.0,
        36893488147419103232.0,
        1e300,
        -1e300,
        f64::MAX,
        f64::MIN,
        f64::MIN_POSITIVE,
        f64::MIN_POSITIVE / 2.0,
        -f64::MIN_POSITIVE / 4.0,
        f64::EPSILON,
        f64::INFINITY,
        f64::NEG_INFINITY,
        f64::NAN,
        -f64::NAN,
        1705312800000.0,
        -1705312800999.0,
    ];
    let mut x: u64 = 0x9E37_79B9_7F4A_7C15;
    for _ in 0..2000 {
        x ^= x << 13;
        x ^= x >> 7;
        x ^= x << 17;
        out.push(f64::from_bits(x));
        out.push((x >> 11) as f64);
        out.push(-((x >> 20) as f64));
        out.push((x >> 30) as f64 / 8.0);
    }
    out
}

fn expected_class(n: f64) -> Number {
    if n.fract() == 0.0 && n.is_finite() {
        if n >= 0.0 && n < 18446744073709551616.0 {
            Number::Unsigned(n as u64)
        } else {
            Number::Signed(n as i64)
        }
    } else {
        Number::Float(n.to_bits())
    }
}

#[test]
fn three_is_unsigned() {
    assert_eq!(classify(3.0f64.to_bits()), Number::Unsigned(3));
}

#[test]
fn minus_three_is_signed() {
    assert_eq!(classify((-3.0f64).to_bits()), Number::Signed(-3));
}

#[test]
fn three_and_a_half_is_a_float() {
    assert_eq!(classify(3.5f64.to_bits()), Number::Float(3.5f64.to_bits()));
}

#[test]
fn zero_of_either_sign_is_unsigned_zero() {
    assert_eq!(classify(0.0f64.to_bits()), Number::Unsigned(0));
    assert_eq!(classify((-0.0f64).to_bits()), Number::Unsigned(0));
}

#[test]
fn largest_whole_number_below_two_to_64_is_unsigned() {
    let n = 18446744073709549568.0f64;
    assert_eq!(classify(n.to_bits()), Number::Unsigned(18446744073709549568));
}

#[test]
fn two_to_64_is_out_of_the_unsigned_range() {
    let n = 18446744073709551616.0f64;
    assert_eq!(classify(n.to_bits()), Number::Signed(i64::MAX));
}

#[test]
fn whole_numbers_out_of_range_are_signed_and_held_to_64_bits() {
    assert_eq!(classify(1e300f64.to_bits()), Number::Signed(i64::MAX));
    assert_eq!(classify((-1e300f64).to_bits()), Number::Signed(i64::MIN));
    assert_eq!(
        classify((-9223372036854775808.0f64).to_bits()),
        Number::Signed(i64::MIN)
    );
}

#[test]
fn what_is_not_finite_stays_a_float() {
    for n in [f64::INFINITY, f64::NEG_INFINITY, f64::NAN] {
        assert_eq!(classify(n.to_bits()), Number::Float(n.to_bits()));
    }
}

#[test]
fn subnormal_numbers_are_floats() {
    let n = f64::MIN_POSITIVE / 2.0;
    assert_eq!(classify(n.to_bits()), Number::Float(n.to_bits()));
}

#[test]
fn classification_agrees_with_float_arithmetic() {
    for n in samples() {
        assert_eq!(classify(n.to_bits()), expected_class(n), "for {n:?}");
    }
}

#[test]
fn to_u64_agrees_with_the_cast() {
    for n in samples() {
        assert_eq!(to_u64(n.to_bits()), n as u64, "for {n:?}");
    }
}

#[test]
fn whole_u64_takes_the_whole_numbers_of_the_unsigned_range() {
    for n in samples() {
        let expected = if n.fract() == 0.0 && n >= 0.0 && n < 18446744073709551616.0 {
            Some(n as u64)
        } else {
            None
        };
        assert_eq!(whole_u64(n.to_bits()), expected, "for {n:?}");
    }
}

#[test]
fn whole_i64_takes_the_whole_numbers_of_the_signed_range() {
    for n in samples() {
        let expected =
            if n.fract() == 0.0 && n >= -9223372036854775808.0 && n < 9223372036854775808.0 {
                Some(n as i64)
            } else {
                None
            };
        assert_eq!(whole_i64(n.to_bits()), expected, "for {n:?}");
    }
}

#[test]
fn exact_conversions() {
    assert_eq!(whole_u64(5.0f64.to_bits()), Some(5));
    assert_eq!(whole_u64((-5.0f64).to_bits()), None);
    assert_eq!(whole_u64((-0.0f64).to_bits()), Some(0));
    assert_eq!(whole_u64(3.99f64.to_bits()), None);
    assert_eq!(whole_u64(f64::NAN.to_bits()), None);
    assert_eq!(whole_u64(f64::INFINITY.to_bits()), None);
    assert_eq!(whole_u64(18446744073709549568.0f64.to_bits()), Some(18446744073709549568));
    assert_eq!(whole_u64(18446744073709551616.0f64.to_bits()), None);
    assert_eq!(whole_i64((-5.0f64).to_bits()), Some(-5));
    assert_eq!(whole_i64((-3.99f64).to_bits()), None);
    assert_eq!(whole_i64(f64::NAN.to_bits()), None);
    assert_eq!(whole_i64(f64::NEG_INFINITY.to_bits()), None);
    assert_eq!(whole_i64((-9223372036854775808.0f64).to_bits()), Some(i64::MIN));
    assert_eq!(whole_i64(9223372036854775808.0f64.to_bits()), None);
    assert_eq!(whole_i64(9223372036854774784.0f64.to_bits()), Some(9223372036854774784));
    assert_eq!(to_u64(2.9f64.to_bits()), 2);
    assert_eq!(to_u64((-3.99f64).to_bits()), 0);
    assert_eq!(to_u64(f64::NAN.to_bits()), 0);
    assert_eq!(to_u64(f64::INFINITY.to_bits()), u64::MAX);
}

#[test]
fn sortable_patterns_order_as_the_numbers_do() {
    let ordered = [
        f64::NEG_INFINITY,
        -1e300,
        -3.5,
        -1.0,
        -f64::MIN_POSITIVE,
        -0.0,
        0.0,
        f64::MIN_POSITIVE,
        1.0,
        3.5,
        1e300,
        f64::INFINITY,
    ];
    for pair in ordered.windows(2) {
        assert!(
            sortable(pair[0].to_bits()) < sortable(pair[1].to_bits()),
            "{:?} before {:?}",
            pair[0],
            pair[1]
        );
    }
    assert_eq!(sortable(0.0f64.to_bits()), 0x8000_0000_0000_0000);
    assert_eq!(sortable((-0.0f64).to_bits()), 0x7FFF_FFFF_FFFF_FFFF);
}
