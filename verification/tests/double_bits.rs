use dlmm_math::double::whole_from_double_bits;

#[test]
fn whole_doubles_are_read() {
    assert_eq!(whole_from_double_bits(5.0f64.to_bits()), Some(5));
    assert_eq!(whole_from_double_bits(1.0f64.to_bits()), Some(1));
    assert_eq!(whole_from_double_bits((-1363.0f64).to_bits()), Some(-1363));
    assert_eq!(whole_from_double_bits(2147483647.0f64.to_bits()), Some(i32::MAX));
    assert_eq!(whole_from_double_bits((-2147483648.0f64).to_bits()), Some(i32::MIN));
}

#[test]
fn both_zeros_are_zero() {
    assert_eq!(whole_from_double_bits(0.0f64.to_bits()), Some(0));
    assert_eq!(whole_from_double_bits((-0.0f64).to_bits()), Some(0));
}

#[test]
fn fractions_are_not_whole() {
    assert_eq!(whole_from_double_bits(5.5f64.to_bits()), None);
    assert_eq!(whole_from_double_bits(0.5f64.to_bits()), None);
    assert_eq!(whole_from_double_bits(1199.7901522263887f64.to_bits()), None);
    assert_eq!(whole_from_double_bits(5.000000000000001f64.to_bits()), None);
    assert_eq!(whole_from_double_bits(f64::MIN_POSITIVE.to_bits()), None);
    assert_eq!(whole_from_double_bits(1u64), None);
}

#[test]
fn doubles_out_of_range_are_refused() {
    assert_eq!(whole_from_double_bits(2147483648.0f64.to_bits()), None);
    assert_eq!(whole_from_double_bits((-2147483649.0f64).to_bits()), None);
    assert_eq!(whole_from_double_bits(1e300f64.to_bits()), None);
    assert_eq!(whole_from_double_bits(f64::INFINITY.to_bits()), None);
    assert_eq!(whole_from_double_bits(f64::NEG_INFINITY.to_bits()), None);
    assert_eq!(whole_from_double_bits(f64::NAN.to_bits()), None);
}

#[test]
fn every_small_whole_number_round_trips() {
    for v in -5000i32..=5000 {
        assert_eq!(whole_from_double_bits((v as f64).to_bits()), Some(v));
        assert_eq!(whole_from_double_bits((v as f64 + 0.25).to_bits()), None);
    }
}
