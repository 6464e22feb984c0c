use dlmm_math::error::EngineError;
use dlmm_math::fee::compute_base_factor_from_fee_bps;

fn rebuilt(bin_step: u16, base_factor: u16, power_factor: u8) -> u64 {
    bin_step as u64 * base_factor as u64 * 10u64.pow(power_factor as u32)
}

#[test]
fn fee_of_thirty_bps_on_step_ten() {
    let (base_factor, power_factor) = compute_base_factor_from_fee_bps(10, 30).unwrap();
    assert_eq!((base_factor, power_factor), (30000, 0));
    assert_eq!(rebuilt(10, base_factor, power_factor), 30 * 10_000);
}

#[test]
fn fee_of_one_bps_on_step_hundred_is_exact() {
    assert_eq!(compute_base_factor_from_fee_bps(100, 1), Ok((100, 0)));
}

#[test]
fn fee_that_needs_a_power_factor() {
    assert_eq!(compute_base_factor_from_fee_bps(1, 1000), Ok((10000, 3)));
    assert_eq!(compute_base_factor_from_fee_bps(1, 7), Ok((7000, 1)));
    assert_eq!(compute_base_factor_from_fee_bps(1, 65535), Ok((65535, 4)));
}

#[test]
fn fee_at_the_sixteen_bit_limit() {
    assert_eq!(compute_base_factor_from_fee_bps(200, 13107), Ok((65535, 1)));
    assert_eq!(compute_base_factor_from_fee_bps(10000, 65535), Ok((65535, 0)));
}

#[test]
fn fee_of_zero_is_zero() {
    assert_eq!(compute_base_factor_from_fee_bps(25, 0), Ok((0, 0)));
}

#[test]
fn fee_with_a_fraction_is_refused() {
    assert_eq!(compute_base_factor_from_fee_bps(3, 1), Err(EngineError::HasDecimals));
    assert_eq!(compute_base_factor_from_fee_bps(7, 65535), Err(EngineError::HasDecimals));
}

#[test]
fn fee_that_cannot_be_reduced_is_refused() {
    // 105 * 10000 / 16 = 65625, above sixteen bits and not a multiple of ten.
    assert_eq!(compute_base_factor_from_fee_bps(16, 105), Err(EngineError::HasDecimals));
}

#[test]
fn fee_below_one_unit_underflows() {
    assert_eq!(compute_base_factor_from_fee_bps(20000, 1), Err(EngineError::Underflow));
}

#[test]
fn fee_on_a_zero_step_is_invalid() {
    assert_eq!(compute_base_factor_from_fee_bps(0, 30), Err(EngineError::InvalidInput));
    assert_eq!(compute_base_factor_from_fee_bps(0, 0), Err(EngineError::InvalidInput));
}

#[test]
fn every_encoded_fee_rebuilds_exactly() {
    let mut encoded = 0u32;
    for bin_step in 1u16..=400 {
        for fee_bps in (0u16..=10_000).step_by(7) {
            match compute_base_factor_from_fee_bps(bin_step, fee_bps) {
                Ok((base_factor, power_factor)) => {
                    encoded += 1;
                    assert_eq!(
                        rebuilt(bin_step, base_factor, power_factor),
                        fee_bps as u64 * 10_000
                    );
                    assert!(power_factor == 0 || base_factor as u32 * 10 > 65535);
                }
                Err(e) => assert!(
                    matches!(e, EngineError::HasDecimals | EngineError::Underflow)
                ),
            }
        }
    }
    assert!(encoded > 0);
}

#[test]
fn error_messages() {
    assert_eq!(EngineError::HasDecimals.message(), "have decimals");
    assert_eq!(EngineError::Overflow.message(), "overflow");
    assert_eq!(EngineError::Underflow.message(), "underflow");
    assert_eq!(EngineError::InvalidInput.message(), "invalid input");
    assert_eq!(EngineError::ConsistencyViolation.message(), "consistency violation");
}
