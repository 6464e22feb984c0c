use dlmm_math::amount::get_number_of_position_required_to_cover_range;
use dlmm_math::error::EngineError;
use dlmm_math::decimal::DecimalPrice;
use dlmm_math::seed::{plan_seed_liquidity, position_bin_range, top_up};
use rust_decimal::Decimal;

fn whole(v: i64) -> DecimalPrice {
    DecimalPrice::from_integer(v)
}

fn text(p: &DecimalPrice) -> String {
    Decimal::from_i128_with_scale(p.mantissa(), p.scale()).to_string()
}

#[test]
fn position_ranges_of_a_seeding() {
    assert_eq!(position_bin_range(1200, 1363, 0), Ok((1200, 1269)));
    assert_eq!(position_bin_range(1200, 1363, 1), Ok((1270, 1339)));
    assert_eq!(position_bin_range(1200, 1363, 2), Ok((1340, 1362)));
}

#[test]
fn position_range_of_a_short_range() {
    assert_eq!(position_bin_range(-5, 5, 0), Ok((-5, 4)));
    assert_eq!(position_bin_range(0, 70, 0), Ok((0, 69)));
    assert_eq!(position_bin_range(0, 71, 1), Ok((70, 70)));
}

#[test]
fn position_range_overflows() {
    assert_eq!(position_bin_range(i32::MAX, i32::MAX, 1), Err(EngineError::Overflow));
    assert_eq!(position_bin_range(0, i32::MIN, 0), Err(EngineError::Overflow));
    assert_eq!(position_bin_range(0, 100, i32::MAX), Err(EngineError::Overflow));
    assert_eq!(position_bin_range(i32::MAX - 10, i32::MAX, 0), Ok((i32::MAX - 10, i32::MAX - 1)));
}

#[test]
fn positions_cover_every_bin_once() {
    for (min_bin_id, max_bin_id) in [(0, 1), (0, 70), (-35, 36), (1200, 1363), (-700, 300)] {
        let n = get_number_of_position_required_to_cover_range(min_bin_id, max_bin_id).unwrap();
        let mut next = min_bin_id;
        for i in 0..n {
            let (lower, upper) = position_bin_range(min_bin_id, max_bin_id, i).unwrap();
            assert_eq!(lower, next);
            assert!(lower <= upper);
            next = upper + 1;
        }
        assert_eq!(next, max_bin_id);
    }
}

#[test]
fn plan_of_a_seeding() {
    let plan =
        plan_seed_liquidity(25, 1_000_000, &whole(20000), &whole(30000), 9, 6, &whole(1)).unwrap();
    assert_eq!(plan.fund_amount, 1_000_000_000_000_000);
    assert_eq!((plan.min_bin_id, plan.max_bin_id), (1200, 1363));
    assert_eq!(plan.position_number, 3);
    assert_eq!(plan.decompress_multiplier, 1_000_000_000);
    assert_eq!(plan.compressed_bin_amount.len(), 163);
    for (i, (id, _)) in plan.compressed_bin_amount.iter().enumerate() {
        assert_eq!(*id, 1200 + i as i32);
    }
    let stored: u64 = plan
        .compressed_bin_amount
        .iter()
        .map(|(_, a)| *a as u64 * plan.decompress_multiplier)
        .sum();
    assert_eq!(stored + plan.compression_loss, plan.fund_amount);
    assert!(plan.compression_loss < 163 * plan.decompress_multiplier);
    assert!(text(&plan.actual_min_price).starts_with("20010."));
    assert!(text(&plan.actual_max_price).starts_with("30061."));
    assert_eq!(plan.compressed_bin_amount[0], (1200, 4977));
}

#[test]
fn plan_of_a_small_seeding_is_all_loss() {
    let plan = plan_seed_liquidity(25, 1, &whole(20000), &whole(30000), 9, 6, &whole(1)).unwrap();
    assert_eq!(plan.fund_amount, 1_000_000_000);
    assert!(plan.compressed_bin_amount.iter().all(|(_, a)| *a == 0));
    assert_eq!(plan.compression_loss, 1_000_000_000);
}

#[test]
fn plans_that_fail() {
    let r = plan_seed_liquidity(25, u64::MAX, &whole(20000), &whole(30000), 9, 6, &whole(1));
    assert!(matches!(r, Err(EngineError::Overflow)));
    let r = plan_seed_liquidity(25, 1, &whole(30000), &whole(20000), 9, 6, &whole(1));
    assert!(matches!(r, Err(EngineError::InvalidInput)));
    let r = plan_seed_liquidity(25, 1, &whole(20000), &whole(20000), 9, 6, &whole(1));
    assert!(matches!(r, Err(EngineError::InvalidInput)));
    let r = plan_seed_liquidity(25, 1, &whole(0), &whole(20000), 9, 6, &whole(1));
    assert!(matches!(r, Err(EngineError::InvalidInput)));
    let r = plan_seed_liquidity(0, 1, &whole(20000), &whole(30000), 9, 6, &whole(1));
    assert!(matches!(r, Err(EngineError::InvalidInput)));
    let r = plan_seed_liquidity(25, 1, &whole(20000), &whole(30000), 9, 6, &whole(0));
    assert!(matches!(r, Err(EngineError::InvalidInput)));
    // A billion billion tokens per bin do not fit 32 bits after compression.
    let r = plan_seed_liquidity(25, 1_000_000_000_000, &whole(20000), &whole(30000), 6, 6, &whole(1));
    assert!(matches!(r, Err(EngineError::Overflow)));
}

#[test]
fn top_up_goes_with_the_last_position() {
    let plan =
        plan_seed_liquidity(25, 1_000_000, &whole(20000), &whole(30000), 9, 6, &whole(1)).unwrap();
    assert!(plan.compression_loss > 0);
    assert_eq!(top_up(&plan, 0), None);
    assert_eq!(top_up(&plan, 1), None);
    assert_eq!(top_up(&plan, 2), Some((1362, plan.compression_loss)));
    assert_eq!(top_up(&plan, 3), None);
    assert_eq!(top_up(&plan, i32::MAX), None);
    let (_, upper) = position_bin_range(plan.min_bin_id, plan.max_bin_id, 2).unwrap();
    assert_eq!(upper, 1362);
}

#[test]
fn no_top_up_without_a_loss() {
    let mut plan =
        plan_seed_liquidity(25, 1_000_000, &whole(20000), &whole(30000), 9, 6, &whole(1)).unwrap();
    plan.compression_loss = 0;
    assert_eq!(top_up(&plan, 2), None);
    plan.compression_loss = 7;
    plan.max_bin_id = i32::MIN;
    assert_eq!(top_up(&plan, 2), None);
}
