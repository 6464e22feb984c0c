use dlmm_math::compress::{compress_bin_amount, compress_entries};
use std::collections::HashMap;
use dlmm_math::curve::{
    convert_min_max_ui_price_to_min_max_bin_id, distribute, exponent_of_curvature,
    generate_amount_for_bins, get_bin_deposit_amount, get_c, get_ui_price_from_id,
    LiquidityCurveRequest,
};
use dlmm_math::decimal::DecimalPrice;
use dlmm_math::error::EngineError;
use rust_decimal::Decimal;

fn price(d: Decimal) -> DecimalPrice {
    DecimalPrice::new(d.mantissa(), d.scale()).unwrap()
}

fn decimal(p: &DecimalPrice) -> Decimal {
    Decimal::from_i128_with_scale(p.mantissa(), p.scale())
}

fn request(
    bin_step: u16,
    min_bin_id: i32,
    max_bin_id: i32,
    funding_amount: u64,
    curvature: Decimal,
) -> LiquidityCurveRequest {
    LiquidityCurveRequest {
        bin_step,
        min_bin_id,
        max_bin_id,
        min_price: get_ui_price_from_id(bin_step, min_bin_id, 9, 6).unwrap(),
        max_price: get_ui_price_from_id(bin_step, max_bin_id, 9, 6).unwrap(),
        base_decimals: 9,
        quote_decimals: 6,
        funding_amount,
        curvature: price(curvature),
    }
}

#[test]
fn bin_range_of_a_price_range() {
    let range = convert_min_max_ui_price_to_min_max_bin_id(
        25,
        &price(Decimal::new(20000, 0)),
        &price(Decimal::new(30000, 0)),
        9,
        6,
    );
    assert_eq!(range, Ok((1200, 1363)));
}

#[test]
fn bin_range_of_an_invalid_price() {
    let zero = price(Decimal::ZERO);
    let one = price(Decimal::ONE);
    assert_eq!(
        convert_min_max_ui_price_to_min_max_bin_id(25, &zero, &one, 9, 6),
        Err(EngineError::InvalidInput)
    );
    assert_eq!(
        convert_min_max_ui_price_to_min_max_bin_id(0, &one, &one, 9, 6),
        Err(EngineError::InvalidInput)
    );
    assert_eq!(
        convert_min_max_ui_price_to_min_max_bin_id(25, &one, &one, 9, 200),
        Err(EngineError::Overflow)
    );
}

#[test]
fn ui_price_of_a_bin() {
    let p = get_ui_price_from_id(25, 0, 9, 6).unwrap();
    assert_eq!(decimal(&p), Decimal::new(1000, 0));
    let p = get_ui_price_from_id(25, 1, 9, 6).unwrap();
    assert_eq!(decimal(&p), Decimal::new(10025, 1));
    let p = get_ui_price_from_id(100, 2, 6, 6).unwrap();
    assert_eq!(decimal(&p), Decimal::new(10201, 4));
    let p = get_ui_price_from_id(10000, -1, 6, 8).unwrap();
    assert_eq!(decimal(&p), Decimal::new(5, 3));
    assert!(matches!(get_ui_price_from_id(10000, 200, 0, 0), Err(EngineError::Overflow)));
}

#[test]
fn exponent_is_the_reciprocal_of_the_curvature() {
    let k = exponent_of_curvature(&price(Decimal::new(2, 0))).unwrap();
    assert_eq!(decimal(&k), Decimal::new(5, 1));
    let k = exponent_of_curvature(&price(Decimal::new(5, 1))).unwrap();
    assert_eq!(decimal(&k), Decimal::new(2, 0));
    let k = exponent_of_curvature(&price(Decimal::ONE)).unwrap();
    assert_eq!(decimal(&k), Decimal::ONE);
    assert!(matches!(
        exponent_of_curvature(&price(Decimal::ZERO)),
        Err(EngineError::InvalidInput)
    ));
    assert!(matches!(
        exponent_of_curvature(&price(Decimal::new(-1, 0))),
        Err(EngineError::InvalidInput)
    ));
}

#[test]
fn cumulative_function_at_the_bounds() {
    let min_price = get_ui_price_from_id(25, 1200, 9, 6).unwrap();
    let max_price = get_ui_price_from_id(25, 1363, 9, 6).unwrap();
    let k = price(Decimal::ONE);
    let amount = 1_000_000_000u64;
    assert_eq!(get_c(amount, 25, 1200, 9, 6, &min_price, &max_price, &k), Ok(0));
    assert_eq!(get_c(amount, 25, 1363, 9, 6, &min_price, &max_price, &k), Ok(amount));
    assert_eq!(
        get_c(amount, 25, 1199, 9, 6, &min_price, &max_price, &k),
        Err(EngineError::Underflow)
    );
}

#[test]
fn cumulative_function_on_a_linear_curve() {
    // Prices 1000, 1100, 1210 for the bins 0, 1, 2 of a ten percent ladder.
    let min_price = price(Decimal::new(1000, 0));
    let max_price = price(Decimal::new(1210, 0));
    let k = price(Decimal::ONE);
    assert_eq!(get_c(2100, 1000, 0, 9, 6, &min_price, &max_price, &k), Ok(0));
    assert_eq!(get_c(2100, 1000, 1, 9, 6, &min_price, &max_price, &k), Ok(1000));
    assert_eq!(get_c(2100, 1000, 2, 9, 6, &min_price, &max_price, &k), Ok(2100));
    assert_eq!(get_bin_deposit_amount(2100, 1000, 0, 9, 6, &min_price, &max_price, &k), Ok(1000));
    assert_eq!(get_bin_deposit_amount(2100, 1000, 1, 9, 6, &min_price, &max_price, &k), Ok(1100));
    let bins =
        generate_amount_for_bins(1000, 0, 2, &min_price, &max_price, 9, 6, 2100, &k).unwrap();
    assert_eq!(bins, vec![(0, 1000), (1, 1100)]);
}

#[test]
fn cumulative_function_with_a_squared_ratio() {
    let min_price = price(Decimal::new(1000, 0));
    let max_price = price(Decimal::new(1210, 0));
    let k = price(Decimal::new(2, 0));
    // (100 / 210)^2 * 44100 = 10000
    assert_eq!(get_c(44100, 1000, 1, 9, 6, &min_price, &max_price, &k), Ok(10000));
    let bins =
        generate_amount_for_bins(1000, 0, 2, &min_price, &max_price, 9, 6, 44100, &k).unwrap();
    assert_eq!(bins, vec![(0, 10000), (1, 34100)]);
}

#[test]
fn invalid_curve_inputs() {
    let low = price(Decimal::new(1000, 0));
    let high = price(Decimal::new(1210, 0));
    let k = price(Decimal::ONE);
    assert_eq!(get_c(10, 0, 1, 9, 6, &low, &high, &k), Err(EngineError::InvalidInput));
    assert_eq!(get_c(10, 1000, 1, 9, 6, &high, &low, &k), Err(EngineError::InvalidInput));
    assert_eq!(get_c(10, 1000, 1, 9, 6, &low, &low, &k), Err(EngineError::InvalidInput));
    assert_eq!(
        generate_amount_for_bins(1000, 2, 2, &low, &high, 9, 6, 10, &k),
        Err(EngineError::InvalidInput)
    );
    assert_eq!(
        generate_amount_for_bins(1000, 3, 2, &low, &high, 9, 6, 10, &k),
        Err(EngineError::InvalidInput)
    );
    assert_eq!(
        get_bin_deposit_amount(10, 1000, i32::MAX, 9, 6, &low, &high, &k),
        Err(EngineError::Overflow)
    );
}

#[test]
fn inconsistent_price_range_is_reported() {
    // The upper price lies above the price of the upper bin, so the
    // cumulative function does not reach the amount.
    let min_price = price(Decimal::new(1000, 0));
    let max_price = price(Decimal::new(2000, 0));
    let k = price(Decimal::ONE);
    assert_eq!(
        generate_amount_for_bins(1000, 0, 2, &min_price, &max_price, 9, 6, 2100, &k),
        Err(EngineError::ConsistencyViolation)
    );
}

#[test]
fn decreasing_cumulative_function_is_reported() {
    // With a negative exponent the cumulative function falls from bin 1 to
    // bin 2.
    let min_price = price(Decimal::new(1000, 0));
    let max_price = price(Decimal::new(1210, 0));
    let k = price(Decimal::new(-1, 0));
    assert_eq!(get_c(2100, 1000, 1, 9, 6, &min_price, &max_price, &k), Ok(4410));
    assert_eq!(get_c(2100, 1000, 2, 9, 6, &min_price, &max_price, &k), Ok(2100));
    assert_eq!(
        get_bin_deposit_amount(2100, 1000, 1, 9, 6, &min_price, &max_price, &k),
        Err(EngineError::ConsistencyViolation)
    );
    assert_eq!(
        generate_amount_for_bins(1000, 0, 2, &min_price, &max_price, 9, 6, 2100, &k),
        Err(EngineError::ConsistencyViolation)
    );
}

#[test]
fn seeding_scenario() {
    let (min_bin_id, max_bin_id) = convert_min_max_ui_price_to_min_max_bin_id(
        25,
        &price(Decimal::new(20000, 0)),
        &price(Decimal::new(30000, 0)),
        9,
        6,
    )
    .unwrap();
    let funding = 1_000_000_000u64;
    let bins = distribute(&request(25, min_bin_id, max_bin_id, funding, Decimal::ONE)).unwrap();
    assert_eq!(bins.len(), (max_bin_id - min_bin_id) as usize);
    for (i, (id, _)) in bins.iter().enumerate() {
        assert_eq!(*id, min_bin_id + i as i32);
    }
    assert_eq!(bins.iter().map(|(_, a)| *a).sum::<u64>(), funding);
    let first = bins[0].1;
    let last = bins[bins.len() - 1].1;
    assert!(last > first);
    assert_eq!((first, last), (4_977_191, 7_458_546));
}

#[test]
fn distribution_conserves_the_funding() {
    let curvatures = [
        Decimal::new(5, 1),
        Decimal::ONE,
        Decimal::new(2, 0),
        Decimal::new(5, 0),
    ];
    for curvature in curvatures {
        for (min_bin_id, width) in [(0, 2), (-50, 10), (1200, 163), (-700, 1000)] {
            for funding in [0u64, 1, 1_000_000_000, 123_456_789_012_345] {
                let r = request(25, min_bin_id, min_bin_id + width, funding, curvature);
                let bins = distribute(&r).unwrap();
                assert_eq!(bins.len(), width as usize);
                assert_eq!(bins.iter().map(|(_, a)| *a as u128).sum::<u128>(), funding as u128);
            }
        }
    }
}

#[test]
fn invalid_requests() {
    let mut r = request(25, 5, 5, 100, Decimal::ONE);
    r.max_price = get_ui_price_from_id(25, 6, 9, 6).unwrap();
    assert_eq!(distribute(&r), Err(EngineError::InvalidInput));
    let r = request(25, 0, 10, 100, Decimal::ZERO);
    assert_eq!(distribute(&r), Err(EngineError::InvalidInput));
    let r = request(25, 0, 10, 100, Decimal::new(-2, 0));
    assert_eq!(distribute(&r), Err(EngineError::InvalidInput));
    let mut r = request(25, 0, 10, 100, Decimal::ONE);
    r.bin_step = 0;
    assert_eq!(distribute(&r), Err(EngineError::InvalidInput));
    let mut r = request(25, 0, 10, 100, Decimal::ONE);
    r.max_price = r.min_price;
    assert_eq!(distribute(&r), Err(EngineError::InvalidInput));
}

#[test]
fn distribution_then_compression() {
    let funding = 1_000_000_000_000u64;
    let bins = distribute(&request(25, 1200, 1363, funding, Decimal::new(2, 0))).unwrap();
    let out = compress_entries(&bins, 1_000_000_000).unwrap();
    let stored: u64 = out
        .compressed_bin_amount
        .iter()
        .map(|(_, a)| *a as u64 * 1_000_000_000)
        .sum();
    assert_eq!(stored + out.compression_loss, funding);
    let bins_map: HashMap<i32, u64> = bins.iter().map(|(id, a)| (*id, *a)).collect();
    let mapped = compress_bin_amount(bins_map, 1_000_000_000).unwrap();
    assert_eq!(mapped.compression_loss, out.compression_loss);
    for (id, amount) in out.compressed_bin_amount.iter() {
        assert_eq!(mapped.compressed_bin_amount.get(id), Some(amount));
    }
}
