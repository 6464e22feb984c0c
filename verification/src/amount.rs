//! Whole-token amounts in atomic units, and the number of positions that a
//! range of bins takes.

use vstd::prelude::*;
use crate::error::EngineError;
use crate::power::{lemma_pow10_monotone, lemma_pow10_positive, pow10};

verus! {

/// The number of bins that one position covers.
pub const DEFAULT_BIN_PER_POSITION: i32 = 70;

/// `amount * 10^decimal`, where 64 bits hold it.
pub open spec fn wei_amount(amount: nat, decimal: nat) -> Result<u64, EngineError> {
    if amount * pow10(decimal) <= u64::MAX {
        Ok((amount * pow10(decimal)) as u64)
    } else {
        Err(EngineError::Overflow)
    }
}

/// `amount` whole tokens in atomic units, `amount * 10^decimal`; `Overflow`
/// exactly when 64 bits do not hold the product.
pub fn to_wei_amount(amount: u64, decimal: u8) -> (r: Result<u64, EngineError>)
    ensures
        r == wei_amount(amount as nat, decimal as nat),
{
    if amount == 0 {
        proof {
            assert(0 * pow10(decimal as nat) == 0) by (nonlinear_arith);
        }
        return Ok(0);
    }
    let mut wei: u64 = amount;
    let mut i: u8 = 0;
    proof {
        assert(amount * pow10(0) == amount) by {
            assert(pow10(0) == 1);
        }
    }
    while i < decimal
        invariant
            i <= decimal,
            wei == amount * pow10(i as nat),
            amount > 0,
        decreases decimal - i,
    {
        proof {
            let a = amount as int;
            let p = pow10(i as nat) as int;
            assert(pow10((i + 1) as nat) == 10 * pow10(i as nat));
            assert(a * (10 * p) == (a * p) * 10) by (nonlinear_arith);
            if wei > u64::MAX / 10 {
                lemma_pow10_positive(i as nat);
                lemma_pow10_monotone((i + 1) as nat, decimal as nat);
                let q = pow10((i + 1) as nat) as int;
                let t = pow10(decimal as nat) as int;
                assert(a * t >= a * q) by (nonlinear_arith)
                    requires
                        a > 0,
                        t >= q,
                ;
            }
        }
        if wei > u64::MAX / 10 {
            return Err(EngineError::Overflow);
        }
        wei = wei * 10;
        i = i + 1;
    }
    Ok(wei)
}

/// The number of positions of [`DEFAULT_BIN_PER_POSITION`] bins that the
/// `delta` bins above a lower bound take: `delta / 70` rounded up for a
/// positive `delta`, and rounded toward zero for a negative one.
pub open spec fn positions_for(delta: int) -> int {
    if delta >= 0 {
        (delta + DEFAULT_BIN_PER_POSITION - 1) / (DEFAULT_BIN_PER_POSITION as int)
    } else {
        -((-delta) / (DEFAULT_BIN_PER_POSITION as int))
    }
}

/// The number of positions for the bins from `min_bin_id` up to, and
/// without, `max_bin_id`, where 32 bits hold the width of the range.
pub open spec fn position_count(min_bin_id: int, max_bin_id: int) -> Result<i32, EngineError> {
    if i32::MIN <= max_bin_id - min_bin_id <= i32::MAX {
        Ok(positions_for(max_bin_id - min_bin_id) as i32)
    } else {
        Err(EngineError::Overflow)
    }
}

/// The number of positions needed to cover the bins from `min_bin_id` up to,
/// and without, `max_bin_id`; `Overflow` exactly when 32 bits do not hold
/// `max_bin_id - min_bin_id`.
pub fn get_number_of_position_required_to_cover_range(min_bin_id: i32, max_bin_id: i32) -> (r:
    Result<i32, EngineError>)
    ensures
        r == position_count(min_bin_id as int, max_bin_id as int),
{
    let delta: i64 = max_bin_id as i64 - min_bin_id as i64;
    if delta > i32::MAX as i64 || delta < i32::MIN as i64 {
        return Err(EngineError::Overflow);
    }
    let width: i64 = DEFAULT_BIN_PER_POSITION as i64;
    if delta >= 0 {
        let whole: i64 = delta / width;
        let rest: i64 = delta % width;
        let required: i64 = if rest > 0 {
            whole + 1
        } else {
            whole
        };
        Ok(required as i32)
    } else {
        let whole: i64 = (-delta) / width;
        Ok((-whole) as i32)
    }
}

} // verus!
