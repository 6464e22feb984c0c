//! Seeding a price range with liquidity: from a price range and an amount
//! to the compressed amount of every bin, and the cut of the bin range into
//! positions of a fixed width.
//!
//! Position `index` of a range that starts at `min_bin_id` begins at
//! `min_bin_id + 70 * index` and ends 69 bins higher, or at the last bin of
//! the range, `max_bin_id - 1`, where that comes first.

use vstd::prelude::*;
use crate::amount::{
    get_number_of_position_required_to_cover_range, position_count, positions_for, to_wei_amount,
    wei_amount, DEFAULT_BIN_PER_POSITION,
};
use crate::compress::{
    compress_entries, compressed_amounts, compressible, sum_decompressed, sum_loss,
};
use crate::curve::{
    bin_range_of_prices, convert_min_max_ui_price_to_min_max_bin_id, curved_distribution,
    distribute, get_ui_price_from_id, ui_price_from_id, LiquidityCurveRequest,
};
use crate::decimal::DecimalPrice;
use crate::error::EngineError;

verus! {

/// What seeding a price range comes to.
pub struct SeedPlan {
    /// The amount that is distributed, in atomic units of the base token.
    pub fund_amount: u64,
    /// The lowest bin that is funded.
    pub min_bin_id: i32,
    /// The bin above the highest bin of the distribution; it takes the
    /// compression loss.
    pub max_bin_id: i32,
    /// The whole-token price of `min_bin_id`.
    pub actual_min_price: DecimalPrice,
    /// The whole-token price of `max_bin_id`.
    pub actual_max_price: DecimalPrice,
    /// The number of positions that cover the bins.
    pub position_number: i32,
    /// What a compressed amount is multiplied by to give atomic units.
    pub decompress_multiplier: u64,
    /// `(bin id, compressed amount)` for every bin from `min_bin_id` up to,
    /// and without, `max_bin_id`.
    pub compressed_bin_amount: Vec<(i32, u32)>,
    /// What compression lost, in atomic units.
    pub compression_loss: u64,
}

/// The model of a [`SeedPlan`].
pub struct SeedPlanModel {
    /// The amount that is distributed.
    pub fund_amount: u64,
    /// The lowest bin that is funded.
    pub min_bin_id: i32,
    /// The bin above the highest bin of the distribution.
    pub max_bin_id: i32,
    /// The whole-token price of `min_bin_id`.
    pub actual_min_price: (int, nat),
    /// The whole-token price of `max_bin_id`.
    pub actual_max_price: (int, nat),
    /// The number of positions.
    pub position_number: i32,
    /// The multiplier of the compressed amounts.
    pub decompress_multiplier: u64,
    /// The compressed amounts.
    pub compressed_bin_amount: Seq<(i32, u32)>,
    /// What compression lost.
    pub compression_loss: u64,
}

impl View for SeedPlan {
    type V = SeedPlanModel;

    open spec fn view(&self) -> SeedPlanModel {
        SeedPlanModel {
            fund_amount: self.fund_amount,
            min_bin_id: self.min_bin_id,
            max_bin_id: self.max_bin_id,
            actual_min_price: self.actual_min_price@,
            actual_max_price: self.actual_max_price@,
            position_number: self.position_number,
            decompress_multiplier: self.decompress_multiplier,
            compressed_bin_amount: self.compressed_bin_amount@,
            compression_loss: self.compression_loss,
        }
    }
}

/// The plan for seeding `amount` whole base tokens between two whole-token
/// prices, step by step, the first failure ending it:
/// the amount in atomic units; the bins of both prices, rounded up; the
/// prices of those two bins; the number of positions; the distribution along
/// the curve; the multiplier `10^base_decimals`; the compression.
pub open spec fn seed_plan(
    bin_step: nat,
    amount: nat,
    min_price: (int, nat),
    max_price: (int, nat),
    base_decimals: nat,
    quote_decimals: nat,
    curvature: (int, nat),
) -> Result<SeedPlanModel, EngineError> {
    match wei_amount(amount, base_decimals) {
        Err(e) => Err(e),
        Ok(fund_amount) => match bin_range_of_prices(
            bin_step,
            min_price,
            max_price,
            base_decimals,
            quote_decimals,
        ) {
            Err(e) => Err(e),
            Ok((lo, hi)) => match (
                ui_price_from_id(bin_step, lo as int, base_decimals as int, quote_decimals as int),
                ui_price_from_id(bin_step, hi as int, base_decimals as int, quote_decimals as int),
            ) {
                (Some(actual_min_price), Some(actual_max_price)) => match position_count(
                    lo as int,
                    hi as int,
                ) {
                    Err(e) => Err(e),
                    Ok(position_number) => match curved_distribution(
                        bin_step,
                        lo as int,
                        hi as int,
                        actual_min_price,
                        actual_max_price,
                        base_decimals,
                        quote_decimals,
                        fund_amount as nat,
                        curvature,
                    ) {
                        Err(e) => Err(e),
                        Ok(bins) => match wei_amount(1, base_decimals) {
                            Err(e) => Err(e),
                            Ok(multiplier) => if compressible(bins, multiplier as int) {
                                Ok(
                                    SeedPlanModel {
                                        fund_amount,
                                        min_bin_id: lo,
                                        max_bin_id: hi,
                                        actual_min_price,
                                        actual_max_price,
                                        position_number,
                                        decompress_multiplier: multiplier,
                                        compressed_bin_amount: compressed_amounts(
                                            bins,
                                            multiplier as int,
                                        ),
                                        compression_loss: sum_loss(bins, multiplier as int) as u64,
                                    },
                                )
                            } else {
                                Err(EngineError::Overflow)
                            },
                        },
                    },
                },
                _ => Err(EngineError::Overflow),
            },
        },
    }
}

/// Plans the seeding of `amount` whole base tokens between `min_price` and
/// `max_price`, along a curve of the given curvature.
///
/// The result is the one that [`seed_plan`] gives. On success the range of
/// bins is not empty, the plan holds one compressed amount for each of its
/// bins, and the compressed amounts times the multiplier, plus the loss, are
/// the amount in atomic units.
pub fn plan_seed_liquidity(
    bin_step: u16,
    amount: u64,
    min_price: &DecimalPrice,
    max_price: &DecimalPrice,
    base_token_decimal: u8,
    quote_token_decimal: u8,
    curvature: &DecimalPrice,
) -> (r: Result<SeedPlan, EngineError>)
    ensures
        match r {
            Ok(plan) => {
                &&& seed_plan(
                    bin_step as nat,
                    amount as nat,
                    min_price@,
                    max_price@,
                    base_token_decimal as nat,
                    quote_token_decimal as nat,
                    curvature@,
                ) == Ok::<SeedPlanModel, EngineError>(plan@)
                &&& plan.min_bin_id < plan.max_bin_id
                &&& plan.compressed_bin_amount@.len() == plan.max_bin_id - plan.min_bin_id
                &&& forall|i: int|
                    0 <= i < plan.compressed_bin_amount@.len() ==> (
                    #[trigger] plan.compressed_bin_amount@[i]).0 == plan.min_bin_id + i
                &&& sum_decompressed(
                    plan.compressed_bin_amount@,
                    plan.decompress_multiplier as int,
                ) + plan.compression_loss == plan.fund_amount
            },
            Err(e) => seed_plan(
                bin_step as nat,
                amount as nat,
                min_price@,
                max_price@,
                base_token_decimal as nat,
                quote_token_decimal as nat,
                curvature@,
            ) == Err::<SeedPlanModel, EngineError>(e),
        },
{
    let fund_amount = match to_wei_amount(amount, base_token_decimal) {
        Ok(a) => a,
        Err(e) => {
            return Err(e);
        },
    };
    let (min_bin_id, max_bin_id) = match convert_min_max_ui_price_to_min_max_bin_id(
        bin_step,
        min_price,
        max_price,
        base_token_decimal,
        quote_token_decimal,
    ) {
        Ok(range) => range,
        Err(e) => {
            return Err(e);
        },
    };
    let actual_min_price = match get_ui_price_from_id(
        bin_step,
        min_bin_id,
        base_token_decimal as i32,
        quote_token_decimal as i32,
    ) {
        Ok(p) => p,
        Err(e) => {
            return Err(e);
        },
    };
    let actual_max_price = match get_ui_price_from_id(
        bin_step,
        max_bin_id,
        base_token_decimal as i32,
        quote_token_decimal as i32,
    ) {
        Ok(p) => p,
        Err(e) => {
            return Err(e);
        },
    };
    let position_number = match get_number_of_position_required_to_cover_range(
        min_bin_id,
        max_bin_id,
    ) {
        Ok(n) => n,
        Err(e) => {
            return Err(e);
        },
    };
    let request = LiquidityCurveRequest {
        bin_step,
        min_bin_id,
        max_bin_id,
        min_price: actual_min_price,
        max_price: actual_max_price,
        base_decimals: base_token_decimal,
        quote_decimals: quote_token_decimal,
        funding_amount: fund_amount,
        curvature: *curvature,
    };
    let bins = match distribute(&request) {
        Ok(bins) => bins,
        Err(e) => {
            return Err(e);
        },
    };
    let decompress_multiplier = match to_wei_amount(1, base_token_decimal) {
        Ok(m) => m,
        Err(e) => {
            return Err(e);
        },
    };
    let compressed = match compress_entries(&bins, decompress_multiplier) {
        Ok(c) => c,
        Err(e) => {
            return Err(e);
        },
    };
    Ok(
        SeedPlan {
            fund_amount,
            min_bin_id,
            max_bin_id,
            actual_min_price,
            actual_max_price,
            position_number,
            decompress_multiplier,
            compressed_bin_amount: compressed.compressed_bin_amount,
            compression_loss: compressed.compression_loss,
        },
    )
}

/// What is deposited on top of the compressed amounts with position `index`:
/// for the last position of a plan with a loss, the loss, into the highest
/// bin of the range, `max_bin_id - 1`; for every other position, nothing.
pub open spec fn top_up_of(plan: SeedPlanModel, index: int) -> Option<(i32, u64)> {
    if index + 1 == plan.position_number && plan.compression_loss > 0 && plan.max_bin_id
        > i32::MIN {
        Some(((plan.max_bin_id - 1) as i32, plan.compression_loss))
    } else {
        None
    }
}

/// The bin and the amount of the deposit that makes up for the compression
/// loss, where position `index` carries it.
pub fn top_up(plan: &SeedPlan, index: i32) -> (r: Option<(i32, u64)>)
    ensures
        r == top_up_of(plan@, index as int),
{
    if index as i64 + 1 == plan.position_number as i64 && plan.compression_loss > 0
        && plan.max_bin_id > i32::MIN {
        Some((plan.max_bin_id - 1, plan.compression_loss))
    } else {
        None
    }
}

/// The lowest bin of position `index`.
pub open spec fn position_lower(min_bin_id: int, index: int) -> int {
    min_bin_id + DEFAULT_BIN_PER_POSITION * index
}

/// The highest bin of position `index`.
pub open spec fn position_upper(min_bin_id: int, max_bin_id: int, index: int) -> int {
    let full = position_lower(min_bin_id, index) + DEFAULT_BIN_PER_POSITION - 1;
    if full < max_bin_id - 1 {
        full
    } else {
        max_bin_id - 1
    }
}

/// The lowest and the highest bin of position `index` in the range from
/// `min_bin_id` up to, and without, `max_bin_id`; `Overflow` exactly when 32
/// bits do not hold one of the two.
pub fn position_bin_range(min_bin_id: i32, max_bin_id: i32, index: i32) -> (r: Result<
    (i32, i32),
    EngineError,
>)
    ensures
        ({
            let lower = position_lower(min_bin_id as int, index as int);
            let upper = position_upper(min_bin_id as int, max_bin_id as int, index as int);
            if i32::MIN <= lower <= i32::MAX && i32::MIN <= upper <= i32::MAX {
                r == Ok::<(i32, i32), EngineError>((lower as i32, upper as i32))
            } else {
                r == Err::<(i32, i32), EngineError>(EngineError::Overflow)
            }
        }),
{
    let width: i64 = DEFAULT_BIN_PER_POSITION as i64;
    let lower: i64 = min_bin_id as i64 + width * (index as i64);
    let full: i64 = lower + width - 1;
    let last: i64 = max_bin_id as i64 - 1;
    let upper: i64 = if full < last {
        full
    } else {
        last
    };
    if lower < i32::MIN as i64 || lower > i32::MAX as i64 || upper < i32::MIN as i64 || upper
        > i32::MAX as i64 {
        return Err(EngineError::Overflow);
    }
    Ok((lower as i32, upper as i32))
}

/// The index of the position that holds bin `bin_id`.
pub open spec fn position_of_bin(min_bin_id: int, bin_id: int) -> int {
    (bin_id - min_bin_id) / (DEFAULT_BIN_PER_POSITION as int)
}

/// Covering law: the positions counted for a range that is not empty lie
/// inside it, none is empty, each begins right after the one before, the
/// first begins at the lowest bin and the last ends at the highest. So every
/// bin of the range lies in exactly one position, and what compression loses
/// is topped up in the last bin of the last position.
pub proof fn lemma_positions_cover(min_bin_id: i32, max_bin_id: i32)
    requires
        min_bin_id < max_bin_id,
    ensures
        ({
            let lo = min_bin_id as int;
            let hi = max_bin_id as int;
            let n = positions_for(hi - lo);
            &&& n >= 1
            &&& position_lower(lo, 0) == lo
            &&& position_upper(lo, hi, n - 1) == hi - 1
            &&& forall|i: int|
                0 <= i < n ==> lo <= #[trigger] position_lower(lo, i) <= position_upper(lo, hi, i)
                    <= hi - 1
            &&& forall|i: int|
                0 <= i < n - 1 ==> #[trigger] position_upper(lo, hi, i) + 1 == position_lower(
                    lo,
                    i + 1,
                )
            &&& forall|b: int|
                lo <= b < hi ==> {
                    let i = #[trigger] position_of_bin(lo, b);
                    0 <= i < n && position_lower(lo, i) <= b <= position_upper(lo, hi, i)
                }
        }),
{
}

} // verus!
