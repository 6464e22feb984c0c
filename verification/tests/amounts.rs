use dlmm_math::amount::{get_number_of_position_required_to_cover_range, to_wei_amount};
use dlmm_math::compress::{compress_bin_amount, compress_entries, entries_of};
use std::collections::HashMap;
use dlmm_math::error::EngineError;

#[test]
fn wei_amount_scales_by_the_decimals() {
    assert_eq!(to_wei_amount(5, 9), Ok(5_000_000_000));
    assert_eq!(to_wei_amount(1, 0), Ok(1));
    assert_eq!(to_wei_amount(1, 19), Ok(10_000_000_000_000_000_000));
    assert_eq!(to_wei_amount(18, 18), Ok(18_000_000_000_000_000_000));
}

#[test]
fn wei_amount_of_zero_is_zero() {
    assert_eq!(to_wei_amount(0, 255), Ok(0));
}

#[test]
fn wei_amount_overflows() {
    assert_eq!(to_wei_amount(1, 20), Err(EngineError::Overflow));
    assert_eq!(to_wei_amount(19, 18), Err(EngineError::Overflow));
    assert_eq!(to_wei_amount(u64::MAX, 1), Err(EngineError::Overflow));
}

#[test]
fn positions_round_up() {
    assert_eq!(get_number_of_position_required_to_cover_range(0, 0), Ok(0));
    assert_eq!(get_number_of_position_required_to_cover_range(0, 1), Ok(1));
    assert_eq!(get_number_of_position_required_to_cover_range(0, 70), Ok(1));
    assert_eq!(get_number_of_position_required_to_cover_range(0, 71), Ok(2));
    assert_eq!(get_number_of_position_required_to_cover_range(-10, 60), Ok(1));
    assert_eq!(get_number_of_position_required_to_cover_range(1200, 1363), Ok(3));
}

#[test]
fn positions_of_an_inverted_range() {
    assert_eq!(get_number_of_position_required_to_cover_range(10, 0), Ok(0));
    assert_eq!(get_number_of_position_required_to_cover_range(0, -140), Ok(-2));
    assert_eq!(get_number_of_position_required_to_cover_range(0, -141), Ok(-2));
}

#[test]
fn positions_overflow() {
    assert_eq!(
        get_number_of_position_required_to_cover_range(i32::MIN, i32::MAX),
        Err(EngineError::Overflow)
    );
    assert_eq!(
        get_number_of_position_required_to_cover_range(1, i32::MIN),
        Err(EngineError::Overflow)
    );
    assert_eq!(
        get_number_of_position_required_to_cover_range(0, i32::MAX),
        Ok(30_678_338)
    );
}

#[test]
fn compression_divides_and_keeps_the_loss() {
    let bins = vec![(1, 2500u64), (2, 999), (3, 1000)];
    let out = compress_entries(&bins, 1000).unwrap();
    assert_eq!(out.compressed_bin_amount, vec![(1, 2u32), (2, 0), (3, 1)]);
    assert_eq!(out.compression_loss, 1499);
}

#[test]
fn compression_conserves_the_total() {
    let bins: Vec<(i32, u64)> = (0..500)
        .map(|i| (i - 250, (i as u64) * 1_234_567_891 + 17))
        .collect();
    for multiplier in [1000u64, 4096, 1_000_000, 1_000_000_000] {
        let out = compress_entries(&bins, multiplier).unwrap();
        let stored: u128 = out
            .compressed_bin_amount
            .iter()
            .map(|(_, a)| *a as u128 * multiplier as u128)
            .sum();
        let total: u128 = bins.iter().map(|(_, a)| *a as u128).sum();
        assert_eq!(stored + out.compression_loss as u128, total);
        assert_eq!(out.compressed_bin_amount.len(), bins.len());
        for (i, (id, _)) in out.compressed_bin_amount.iter().enumerate() {
            assert_eq!(*id, bins[i].0);
        }
    }
}

#[test]
fn compression_at_the_limit_of_32_bits() {
    let fits = vec![(0, u32::MAX as u64 * 10 + 9)];
    let out = compress_entries(&fits, 10).unwrap();
    assert_eq!(out.compressed_bin_amount, vec![(0, u32::MAX)]);
    assert_eq!(out.compression_loss, 9);
    let too_large = vec![(0, (u32::MAX as u64 + 1) * 10)];
    assert!(matches!(compress_entries(&too_large, 10), Err(EngineError::Overflow)));
}

#[test]
fn compression_by_zero() {
    let bins = vec![(0, 5u64)];
    assert!(matches!(compress_entries(&bins, 0), Err(EngineError::Overflow)));
    let none: Vec<(i32, u64)> = Vec::new();
    let out = compress_entries(&none, 0).unwrap();
    assert!(out.compressed_bin_amount.is_empty());
    assert_eq!(out.compression_loss, 0);
}

#[test]
fn compression_loss_overflows() {
    let bins = vec![(0, u64::MAX - 1), (1, u64::MAX - 1), (2, 5)];
    assert!(matches!(compress_entries(&bins, u64::MAX), Err(EngineError::Overflow)));
}

#[test]
fn compressed_amount_of_a_bin() {
    let bins = vec![(7, 2500u64), (8, 999), (9, 1000), (8, 5000)];
    let out = compress_entries(&bins, 1000).unwrap();
    assert_eq!(out.amount_of(7), Some(2));
    assert_eq!(out.amount_of(8), Some(0));
    assert_eq!(out.amount_of(9), Some(1));
    assert_eq!(out.amount_of(10), None);
}

#[test]
fn map_compression_divides_and_keeps_the_loss() {
    let mut bins: HashMap<i32, u64> = HashMap::new();
    bins.insert(1, 2500);
    bins.insert(2, 999);
    bins.insert(3, 1000);
    let out = compress_bin_amount(bins, 1000).unwrap();
    assert_eq!(out.compressed_bin_amount.len(), 3);
    assert_eq!(out.compressed_bin_amount.get(&1), Some(&2));
    assert_eq!(out.compressed_bin_amount.get(&2), Some(&0));
    assert_eq!(out.compressed_bin_amount.get(&3), Some(&1));
    assert_eq!(out.compressed_bin_amount.get(&4), None);
    assert_eq!(out.compression_loss, 1499);
}

#[test]
fn map_compression_conserves_the_total() {
    let bins: HashMap<i32, u64> = (0..500)
        .map(|i| (i - 250, (i as u64) * 1_234_567_891 + 17))
        .collect();
    let total: u128 = bins.values().map(|a| *a as u128).sum();
    for multiplier in [1000u64, 4096, 1_000_000, 1_000_000_000] {
        let out = compress_bin_amount(bins.clone(), multiplier).unwrap();
        let stored: u128 = out
            .compressed_bin_amount
            .values()
            .map(|a| *a as u128 * multiplier as u128)
            .sum();
        assert_eq!(stored + out.compression_loss as u128, total);
        assert_eq!(out.compressed_bin_amount.len(), bins.len());
        for (id, amount) in bins.iter() {
            assert_eq!(out.compressed_bin_amount[id] as u64, amount / multiplier);
        }
    }
}

#[test]
fn map_compression_fails() {
    let mut bins: HashMap<i32, u64> = HashMap::new();
    bins.insert(0, (u32::MAX as u64 + 1) * 10);
    bins.insert(1, 5);
    assert!(matches!(compress_bin_amount(bins.clone(), 10), Err(EngineError::Overflow)));
    assert!(matches!(compress_bin_amount(bins, 0), Err(EngineError::Overflow)));
    let none: HashMap<i32, u64> = HashMap::new();
    let out = compress_bin_amount(none, 0).unwrap();
    assert!(out.compressed_bin_amount.is_empty());
    assert_eq!(out.compression_loss, 0);
    let mut heavy: HashMap<i32, u64> = HashMap::new();
    heavy.insert(0, u64::MAX - 1);
    heavy.insert(1, u64::MAX - 1);
    heavy.insert(2, 5);
    assert!(matches!(compress_bin_amount(heavy, u64::MAX), Err(EngineError::Overflow)));
}

#[test]
fn entries_of_a_map() {
    let mut bins: HashMap<i32, u64> = HashMap::new();
    bins.insert(-3, 30);
    bins.insert(9, 90);
    bins.insert(4, 40);
    let mut entries = entries_of(&bins);
    entries.sort();
    assert_eq!(entries, vec![(-3, 30), (4, 40), (9, 90)]);
    assert!(entries_of(&HashMap::new()).is_empty());
}
