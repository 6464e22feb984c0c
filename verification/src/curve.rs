//! Spreading a funding amount over a range of bins along a curve.
//!
//! The cumulative function is
//! `C(bin) = amount * ((price(bin) - min_price) / (max_price - min_price))^k`,
//! cut down to a whole number, where `price(bin)` is the price of one whole
//! base token at that bin. Bin `b` receives `C(b + 1) - C(b)`.

use vstd::prelude::*;
use crate::compress::{distinct_ids, sum_amounts};
use crate::decimal::{
    decimal_div, decimal_mul, decimal_powd, decimal_powi, decimal_sub, decimal_trunc,
    DecimalPrice,
};
use crate::error::EngineError;
use crate::ladder::{
    get_id_from_price, id_from_price, ladder_base, ladder_base_of, Rounding,
};
use crate::price::{price_per_token_to_per_lamport, scaled_price};

verus! {

/// What a distribution is computed from.
pub struct CurveModel {
    /// The amount to distribute, in atomic units of the base token.
    pub amount: nat,
    /// The ladder step, in basis points.
    pub bin_step: nat,
    /// Decimal places of the base token.
    pub base_decimals: nat,
    /// Decimal places of the quote token.
    pub quote_decimals: nat,
    /// The price at which the cumulative function is zero.
    pub min_price: (int, nat),
    /// The price at which the cumulative function is the whole amount.
    pub max_price: (int, nat),
    /// The exponent of the cumulative function, the reciprocal of the curvature.
    pub k: (int, nat),
}

/// The price of one whole base token at `bin_id`:
/// `base^bin_id * 10^(base_decimals - quote_decimals)`.
pub open spec fn ui_price_from_id(bin_step: nat, bin_id: int, base_decimals: int, quote_decimals: int)
    -> Option<(int, nat)> {
    match ladder_base(bin_step) {
        None => None,
        Some(base) => match decimal_powi(base, bin_id) {
            None => None,
            Some(per_lamport) => match decimal_powi(
                (10int, 0nat),
                base_decimals - quote_decimals,
            ) {
                None => None,
                Some(unit) => decimal_mul(per_lamport, unit),
            },
        },
    }
}

/// The share of the price range that lies below `price`, raised to `k` and
/// applied to `amount`, before it is cut down to a whole number.
pub open spec fn weighted_amount(m: CurveModel, range: (int, nat), price: (int, nat)) -> Option<
    (int, nat),
> {
    match decimal_sub(price, m.min_price) {
        None => None,
        Some(delta) => match decimal_div(delta, range) {
            None => None,
            Some(ratio) => match decimal_powd(ratio, m.k) {
                None => None,
                Some(weight) => decimal_mul((m.amount as int, 0nat), weight),
            },
        },
    }
}

/// The cumulative function at `bin_id`.
///
/// A zero step and a price range that is not positive are invalid; a
/// negative value underflows; a value above 64 bits, or an arithmetic step
/// without a result, overflows.
pub open spec fn cumulative(m: CurveModel, bin_id: int) -> Result<u64, EngineError> {
    if m.bin_step == 0 {
        Err(EngineError::InvalidInput)
    } else {
        match decimal_sub(m.max_price, m.min_price) {
            None => Err(EngineError::Overflow),
            Some(range) => if range.0 <= 0 {
                Err(EngineError::InvalidInput)
            } else {
                match ui_price_from_id(
                    m.bin_step,
                    bin_id,
                    m.base_decimals as int,
                    m.quote_decimals as int,
                ) {
                    None => Err(EngineError::Overflow),
                    Some(price) => match weighted_amount(m, range, price) {
                        None => Err(EngineError::Overflow),
                        Some(c) => if c.0 < 0 {
                            Err(EngineError::Underflow)
                        } else if decimal_trunc(c) > u64::MAX {
                            Err(EngineError::Overflow)
                        } else {
                            Ok(decimal_trunc(c) as u64)
                        },
                    },
                }
            },
        }
    }
}

/// What bin `bin_id` receives: `C(bin_id + 1) - C(bin_id)`, the upper value
/// first; a cumulative function that decreases is a consistency violation,
/// and the highest bin id of all has no bin above it.
pub open spec fn bin_deposit(m: CurveModel, bin_id: int) -> Result<u64, EngineError> {
    if bin_id >= i32::MAX {
        Err(EngineError::Overflow)
    } else {
        match cumulative(m, bin_id + 1) {
            Err(e) => Err(e),
            Ok(c1) => match cumulative(m, bin_id) {
                Err(e) => Err(e),
                Ok(c0) => if c1 < c0 {
                    Err(EngineError::ConsistencyViolation)
                } else {
                    Ok((c1 - c0) as u64)
                },
            },
        }
    }
}

/// The deposits of the `n` bins from `min_bin_id` upward, or the first
/// failure among them.
pub open spec fn bin_deposits(m: CurveModel, min_bin_id: int, n: nat) -> Result<
    Seq<(i32, u64)>,
    EngineError,
>
    decreases n,
{
    if n == 0 {
        Ok(Seq::empty())
    } else {
        match bin_deposits(m, min_bin_id, (n - 1) as nat) {
            Err(e) => Err(e),
            Ok(s) => match bin_deposit(m, min_bin_id + n - 1) {
                Err(e) => Err(e),
                Ok(a) => Ok(s.push(((min_bin_id + n - 1) as i32, a))),
            },
        }
    }
}

/// The distribution over the bins from `min_bin_id` up to, and without,
/// `max_bin_id`.
///
/// An empty or inverted bin range is invalid; deposits that do not add up to
/// the amount are a consistency violation.
pub open spec fn distribution(m: CurveModel, min_bin_id: int, max_bin_id: int) -> Result<
    Seq<(i32, u64)>,
    EngineError,
> {
    if min_bin_id >= max_bin_id {
        Err(EngineError::InvalidInput)
    } else {
        match bin_deposits(m, min_bin_id, (max_bin_id - min_bin_id) as nat) {
            Err(e) => Err(e),
            Ok(s) => if sum_amounts(s) == m.amount {
                Ok(s)
            } else {
                Err(EngineError::ConsistencyViolation)
            },
        }
    }
}

/// Telescoping law: deposits that were all computed cover the bins in order,
/// each is the step of the cumulative function over its bin, and together
/// they are the rise of the cumulative function over the whole range.
pub proof fn lemma_bin_deposits(m: CurveModel, min_bin_id: int, n: nat)
    requires
        bin_deposits(m, min_bin_id, n) is Ok,
        n > 0,
        i32::MIN <= min_bin_id,
        min_bin_id + n - 1 <= i32::MAX,
    ensures
        ({
            let s = bin_deposits(m, min_bin_id, n)->Ok_0;
            &&& s.len() == n
            &&& cumulative(m, min_bin_id) is Ok
            &&& cumulative(m, min_bin_id + n) is Ok
            &&& sum_amounts(s) == cumulative(m, min_bin_id + n)->Ok_0 - cumulative(
                m,
                min_bin_id,
            )->Ok_0
            &&& forall|i: int|
                0 <= i < n ==> {
                    &&& (#[trigger] s[i]).0 == min_bin_id + i
                    &&& cumulative(m, min_bin_id + i) is Ok
                    &&& cumulative(m, min_bin_id + i + 1) is Ok
                    &&& s[i].1 == cumulative(m, min_bin_id + i + 1)->Ok_0 - cumulative(
                        m,
                        min_bin_id + i,
                    )->Ok_0
                }
        }),
    decreases n,
{
    let s = bin_deposits(m, min_bin_id, n)->Ok_0;
    let prev = bin_deposits(m, min_bin_id, (n - 1) as nat)->Ok_0;
    let last_id = min_bin_id + n - 1;
    let a = bin_deposit(m, last_id)->Ok_0;
    assert(s == prev.push((last_id as i32, a)));
    assert(s.drop_last() =~= prev);
    assert(s.last() == (last_id as i32, a));
    if n > 1 {
        lemma_bin_deposits(m, min_bin_id, (n - 1) as nat);
        assert forall|i: int| 0 <= i < n implies {
            &&& (#[trigger] s[i]).0 == min_bin_id + i
            &&& cumulative(m, min_bin_id + i) is Ok
            &&& cumulative(m, min_bin_id + i + 1) is Ok
            &&& s[i].1 == cumulative(m, min_bin_id + i + 1)->Ok_0 - cumulative(
                m,
                min_bin_id + i,
            )->Ok_0
        } by {
            if i < n - 1 {
                assert(s[i] == prev[i]);
            }
        }
    } else {
        assert(prev =~= Seq::<(i32, u64)>::empty());
        assert(sum_amounts(prev) == 0);
    }
}

/// Conservation law: a distribution that succeeds hands out the whole
/// amount, no more and no less, over exactly the bins of the range, each
/// once and in rising order, and no bin receives less than nothing.
pub proof fn lemma_distribution_conserves(m: CurveModel, min_bin_id: i32, max_bin_id: i32)
    requires
        distribution(m, min_bin_id as int, max_bin_id as int) is Ok,
    ensures
        ({
            let bins = distribution(m, min_bin_id as int, max_bin_id as int)->Ok_0;
            &&& sum_amounts(bins) == m.amount
            &&& bins.len() == max_bin_id - min_bin_id
            &&& forall|i: int|
                0 <= i < bins.len() ==> (#[trigger] bins[i]).0 == min_bin_id + i && bins[i].1 >= 0
            &&& distinct_ids(bins)
        }),
{
    lemma_bin_deposits(m, min_bin_id as int, (max_bin_id - min_bin_id) as nat);
}

/// The price of one whole base token at `bin_id`, for tokens of the given
/// decimal places; `Overflow` exactly where the arithmetic has no result.
pub fn get_ui_price_from_id(
    bin_step: u16,
    bin_id: i32,
    base_token_decimal: i32,
    quote_token_decimal: i32,
) -> (r: Result<DecimalPrice, EngineError>)
    ensures
        match r {
            Ok(p) => ui_price_from_id(
                bin_step as nat,
                bin_id as int,
                base_token_decimal as int,
                quote_token_decimal as int,
            ) == Some(p@),
            Err(e) => e == EngineError::Overflow && ui_price_from_id(
                bin_step as nat,
                bin_id as int,
                base_token_decimal as int,
                quote_token_decimal as int,
            ) is None,
        },
{
    let base = match ladder_base_of(bin_step) {
        Some(b) => b,
        None => {
            return Err(EngineError::Overflow);
        },
    };
    let per_lamport = match base.checked_powi(bin_id as i64) {
        Some(p) => p,
        None => {
            return Err(EngineError::Overflow);
        },
    };
    let shift: i64 = base_token_decimal as i64 - quote_token_decimal as i64;
    let unit = match DecimalPrice::from_integer(10).checked_powi(shift) {
        Some(u) => u,
        None => {
            return Err(EngineError::Overflow);
        },
    };
    match per_lamport.checked_mul(&unit) {
        Some(p) => Ok(p),
        None => Err(EngineError::Overflow),
    }
}

/// The model that the arguments of the distribution functions stand for.
pub open spec fn curve_model(
    amount: u64,
    bin_step: u16,
    base_token_decimal: u8,
    quote_token_decimal: u8,
    min_price: (int, nat),
    max_price: (int, nat),
    k: (int, nat),
) -> CurveModel {
    CurveModel {
        amount: amount as nat,
        bin_step: bin_step as nat,
        base_decimals: base_token_decimal as nat,
        quote_decimals: quote_token_decimal as nat,
        min_price,
        max_price,
        k,
    }
}

/// The cumulative function at `bin_id`: how much of `amount` lies below the
/// price of that bin.
pub fn get_c(
    amount: u64,
    bin_step: u16,
    bin_id: i32,
    base_token_decimal: u8,
    quote_token_decimal: u8,
    min_price: &DecimalPrice,
    max_price: &DecimalPrice,
    k: &DecimalPrice,
) -> (r: Result<u64, EngineError>)
    ensures
        r == cumulative(
            curve_model(
                amount,
                bin_step,
                base_token_decimal,
                quote_token_decimal,
                min_price@,
                max_price@,
                k@,
            ),
            bin_id as int,
        ),
{
    if bin_step == 0 {
        return Err(EngineError::InvalidInput);
    }
    let range = match max_price.checked_sub(min_price) {
        Some(r) => r,
        None => {
            return Err(EngineError::Overflow);
        },
    };
    if range.mantissa() <= 0 {
        return Err(EngineError::InvalidInput);
    }
    let price = match get_ui_price_from_id(
        bin_step,
        bin_id,
        base_token_decimal as i32,
        quote_token_decimal as i32,
    ) {
        Ok(p) => p,
        Err(_) => {
            return Err(EngineError::Overflow);
        },
    };
    let delta = match price.checked_sub(min_price) {
        Some(d) => d,
        None => {
            return Err(EngineError::Overflow);
        },
    };
    let ratio = match delta.checked_div(&range) {
        Some(q) => q,
        None => {
            return Err(EngineError::Overflow);
        },
    };
    let weight = match ratio.checked_powd(k) {
        Some(w) => w,
        None => {
            return Err(EngineError::Overflow);
        },
    };
    let c = match DecimalPrice::from_u64(amount).checked_mul(&weight) {
        Some(c) => c,
        None => {
            return Err(EngineError::Overflow);
        },
    };
    if c.mantissa() < 0 {
        return Err(EngineError::Underflow);
    }
    match c.to_u64() {
        Some(v) => Ok(v),
        None => Err(EngineError::Overflow),
    }
}

/// What bin `bin_id` receives: the step of the cumulative function over it.
pub fn get_bin_deposit_amount(
    amount: u64,
    bin_step: u16,
    bin_id: i32,
    base_token_decimal: u8,
    quote_token_decimal: u8,
    min_price: &DecimalPrice,
    max_price: &DecimalPrice,
    k: &DecimalPrice,
) -> (r: Result<u64, EngineError>)
    ensures
        r == bin_deposit(
            curve_model(
                amount,
                bin_step,
                base_token_decimal,
                quote_token_decimal,
                min_price@,
                max_price@,
                k@,
            ),
            bin_id as int,
        ),
{
    if bin_id == i32::MAX {
        return Err(EngineError::Overflow);
    }
    let c1 = match get_c(
        amount,
        bin_step,
        bin_id + 1,
        base_token_decimal,
        quote_token_decimal,
        min_price,
        max_price,
        k,
    ) {
        Ok(c) => c,
        Err(e) => {
            return Err(e);
        },
    };
    let c0 = match get_c(
        amount,
        bin_step,
        bin_id,
        base_token_decimal,
        quote_token_decimal,
        min_price,
        max_price,
        k,
    ) {
        Ok(c) => c,
        Err(e) => {
            return Err(e);
        },
    };
    if c1 < c0 {
        return Err(EngineError::ConsistencyViolation);
    }
    Ok(c1 - c0)
}

/// Distributes `amount` over the bins from `min_bin_id` up to, and without,
/// `max_bin_id`: the highest bin of a range is left out on purpose, to take
/// what compression loses.
///
/// Returns one `(bin id, amount)` per bin, in rising order of the ids. The
/// result is the one that [`distribution`] gives; on success the amounts add
/// up to `amount`.
pub fn generate_amount_for_bins(
    bin_step: u16,
    min_bin_id: i32,
    max_bin_id: i32,
    min_price: &DecimalPrice,
    max_price: &DecimalPrice,
    base_token_decimal: u8,
    quote_token_decimal: u8,
    amount: u64,
    k: &DecimalPrice,
) -> (r: Result<Vec<(i32, u64)>, EngineError>)
    ensures
        match r {
            Ok(bins) => distribution(
                curve_model(
                    amount,
                    bin_step,
                    base_token_decimal,
                    quote_token_decimal,
                    min_price@,
                    max_price@,
                    k@,
                ),
                min_bin_id as int,
                max_bin_id as int,
            ) == Ok::<Seq<(i32, u64)>, EngineError>(bins@) && sum_amounts(bins@) == amount
                && bins@.len() == max_bin_id - min_bin_id && forall|i: int|
                0 <= i < bins@.len() ==> (#[trigger] bins@[i]).0 == min_bin_id + i,
            Err(e) => distribution(
                curve_model(
                    amount,
                    bin_step,
                    base_token_decimal,
                    quote_token_decimal,
                    min_price@,
                    max_price@,
                    k@,
                ),
                min_bin_id as int,
                max_bin_id as int,
            ) == Err::<Seq<(i32, u64)>, EngineError>(e),
        },
{
    let ghost m = curve_model(
        amount,
        bin_step,
        base_token_decimal,
        quote_token_decimal,
        min_price@,
        max_price@,
        k@,
    );
    if min_bin_id >= max_bin_id {
        return Err(EngineError::InvalidInput);
    }
    let mut bins: Vec<(i32, u64)> = Vec::new();
    let mut total: u64 = 0;
    let mut bin_id: i32 = min_bin_id;
    while bin_id < max_bin_id
        invariant
            min_bin_id <= bin_id <= max_bin_id,
            min_bin_id < max_bin_id,
            m == curve_model(
                amount,
                bin_step,
                base_token_decimal,
                quote_token_decimal,
                min_price@,
                max_price@,
                k@,
            ),
            bin_deposits(m, min_bin_id as int, (bin_id - min_bin_id) as nat) == Ok::<
                Seq<(i32, u64)>,
                EngineError,
            >(bins@),
            total == sum_amounts(bins@),
        decreases max_bin_id - bin_id,
    {
        let ghost n = (bin_id - min_bin_id) as nat;
        let deposit = match get_bin_deposit_amount(
            amount,
            bin_step,
            bin_id,
            base_token_decimal,
            quote_token_decimal,
            min_price,
            max_price,
            k,
        ) {
            Ok(a) => a,
            Err(e) => {
                proof {
                    lemma_deposits_fail(m, min_bin_id as int, n + 1, (max_bin_id - min_bin_id) as nat);
                }
                return Err(e);
            },
        };
        proof {
            let next = bins@.push((bin_id, deposit));
            assert(bin_deposits(m, min_bin_id as int, n + 1) == Ok::<Seq<(i32, u64)>, EngineError>(
                next,
            ));
            assert(next.drop_last() =~= bins@);
            lemma_bin_deposits(m, min_bin_id as int, n + 1);
        }
        total = total + deposit;
        bins.push((bin_id, deposit));
        bin_id = bin_id + 1;
    }
    if total != amount {
        return Err(EngineError::ConsistencyViolation);
    }
    proof {
        lemma_bin_deposits(m, min_bin_id as int, (max_bin_id - min_bin_id) as nat);
    }
    Ok(bins)
}

/// A failure among the first `n` deposits is the failure of any longer run.
proof fn lemma_deposits_fail(m: CurveModel, min_bin_id: int, n: nat, len: nat)
    requires
        bin_deposits(m, min_bin_id, n) is Err,
        n <= len,
    ensures
        bin_deposits(m, min_bin_id, len) == bin_deposits(m, min_bin_id, n),
    decreases len,
{
    if n < len {
        lemma_deposits_fail(m, min_bin_id, n, (len - 1) as nat);
    }
}

/// A request to distribute funding along a curve.
pub struct LiquidityCurveRequest {
    /// The ladder step, in basis points.
    pub bin_step: u16,
    /// The lowest bin that is funded.
    pub min_bin_id: i32,
    /// The bin above the highest bin that is funded.
    pub max_bin_id: i32,
    /// The whole-token price of `min_bin_id`.
    pub min_price: DecimalPrice,
    /// The whole-token price of `max_bin_id`.
    pub max_price: DecimalPrice,
    /// Decimal places of the base token.
    pub base_decimals: u8,
    /// Decimal places of the quote token.
    pub quote_decimals: u8,
    /// The amount to distribute, in atomic units of the base token.
    pub funding_amount: u64,
    /// The shape of the curve: the cumulative function has the exponent
    /// `1 / curvature`.
    pub curvature: DecimalPrice,
}

/// The exponent `1 / curvature`; a curvature that is not positive is invalid.
pub open spec fn curve_exponent(curvature: (int, nat)) -> Result<(int, nat), EngineError> {
    if curvature.0 <= 0 {
        Err(EngineError::InvalidInput)
    } else {
        match decimal_div((1int, 0nat), curvature) {
            Some(k) => Ok(k),
            None => Err(EngineError::Overflow),
        }
    }
}

/// The distribution for a curvature: the bin range is checked first, then
/// the curvature, then the distribution is computed with the exponent
/// `1 / curvature`.
pub open spec fn curved_distribution(
    bin_step: nat,
    min_bin_id: int,
    max_bin_id: int,
    min_price: (int, nat),
    max_price: (int, nat),
    base_decimals: nat,
    quote_decimals: nat,
    amount: nat,
    curvature: (int, nat),
) -> Result<Seq<(i32, u64)>, EngineError> {
    if min_bin_id >= max_bin_id {
        Err(EngineError::InvalidInput)
    } else {
        match curve_exponent(curvature) {
            Err(e) => Err(e),
            Ok(k) => distribution(
                CurveModel {
                    amount,
                    bin_step,
                    base_decimals,
                    quote_decimals,
                    min_price,
                    max_price,
                    k,
                },
                min_bin_id,
                max_bin_id,
            ),
        }
    }
}

/// What a request asks for.
pub open spec fn requested_distribution(request: LiquidityCurveRequest) -> Result<
    Seq<(i32, u64)>,
    EngineError,
> {
    curved_distribution(
        request.bin_step as nat,
        request.min_bin_id as int,
        request.max_bin_id as int,
        request.min_price@,
        request.max_price@,
        request.base_decimals as nat,
        request.quote_decimals as nat,
        request.funding_amount as nat,
        request.curvature@,
    )
}

/// Computes the exponent of the cumulative function from the curvature.
pub fn exponent_of_curvature(curvature: &DecimalPrice) -> (r: Result<DecimalPrice, EngineError>)
    ensures
        match r {
            Ok(k) => curve_exponent(curvature@) == Ok::<(int, nat), EngineError>(k@),
            Err(e) => curve_exponent(curvature@) == Err::<(int, nat), EngineError>(e),
        },
{
    if curvature.mantissa() <= 0 {
        return Err(EngineError::InvalidInput);
    }
    match DecimalPrice::from_integer(1).checked_div(curvature) {
        Some(k) => Ok(k),
        None => Err(EngineError::Overflow),
    }
}

/// Distributes the funding of `request` over its bins.
///
/// Fails with `InvalidInput` for an empty or inverted bin range, a curvature
/// that is not positive, a zero step or a price range that is not positive;
/// with `ConsistencyViolation` where the cumulative function decreases or the
/// deposits do not add up; with `Overflow` or `Underflow` where the arithmetic
/// has no result. On success the amounts add up to the funding amount.
pub fn distribute(request: &LiquidityCurveRequest) -> (r: Result<Vec<(i32, u64)>, EngineError>)
    ensures
        match r {
            Ok(bins) => requested_distribution(*request) == Ok::<Seq<(i32, u64)>, EngineError>(
                bins@,
            ) && sum_amounts(bins@) == request.funding_amount && bins@.len() == request.max_bin_id
                - request.min_bin_id && forall|i: int|
                0 <= i < bins@.len() ==> (#[trigger] bins@[i]).0 == request.min_bin_id + i,
            Err(e) => requested_distribution(*request) == Err::<Seq<(i32, u64)>, EngineError>(e),
        },
{
    if request.min_bin_id >= request.max_bin_id {
        return Err(EngineError::InvalidInput);
    }
    let k = match exponent_of_curvature(&request.curvature) {
        Ok(k) => k,
        Err(e) => {
            return Err(e);
        },
    };
    generate_amount_for_bins(
        request.bin_step,
        request.min_bin_id,
        request.max_bin_id,
        &request.min_price,
        &request.max_price,
        request.base_decimals,
        request.quote_decimals,
        request.funding_amount,
        &k,
    )
}

/// The rung of a whole-token price, rounded up.
pub open spec fn rung_of_ui_price(bin_step: nat, price: (int, nat), base: nat, quote: nat)
    -> Result<i32, EngineError> {
    match scaled_price(price, quote, base) {
        None => Err(EngineError::Overflow),
        Some(per_lamport) => id_from_price(bin_step, per_lamport, Rounding::Up),
    }
}

/// The rungs of both bounds of a price range, the lower bound first.
pub open spec fn bin_range_of_prices(
    bin_step: nat,
    min_price: (int, nat),
    max_price: (int, nat),
    base: nat,
    quote: nat,
) -> Result<(i32, i32), EngineError> {
    match rung_of_ui_price(bin_step, min_price, base, quote) {
        Err(e) => Err(e),
        Ok(lo) => match rung_of_ui_price(bin_step, max_price, base, quote) {
            Err(e) => Err(e),
            Ok(hi) => Ok((lo, hi)),
        },
    }
}

/// The bin ids of a price range given in whole-token prices: each bound is
/// converted to a price per atomic unit and rounded up to a rung.
///
/// Fails where the conversion of a bound fails (`Overflow`) or its rung
/// cannot be found, the lower bound first.
pub fn convert_min_max_ui_price_to_min_max_bin_id(
    bin_step: u16,
    min_price: &DecimalPrice,
    max_price: &DecimalPrice,
    base_token_decimal: u8,
    quote_token_decimal: u8,
) -> (r: Result<(i32, i32), EngineError>)
    ensures
        r == bin_range_of_prices(
            bin_step as nat,
            min_price@,
            max_price@,
            base_token_decimal as nat,
            quote_token_decimal as nat,
        ),
{
    let min_per_lamport = match price_per_token_to_per_lamport(
        min_price,
        base_token_decimal,
        quote_token_decimal,
    ) {
        Ok(p) => p,
        Err(e) => {
            return Err(e);
        },
    };
    let min_active_id = match get_id_from_price(bin_step, &min_per_lamport, Rounding::Up) {
        Ok(id) => id,
        Err(e) => {
            return Err(e);
        },
    };
    let max_per_lamport = match price_per_token_to_per_lamport(
        max_price,
        base_token_decimal,
        quote_token_decimal,
    ) {
        Ok(p) => p,
        Err(e) => {
            return Err(e);
        },
    };
    match get_id_from_price(bin_step, &max_per_lamport, Rounding::Up) {
        Ok(max_active_id) => Ok((min_active_id, max_active_id)),
        Err(e) => Err(e),
    }
}

} // verus!
