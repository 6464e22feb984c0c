//! Conversion between the price of one whole token and the price of one
//! atomic unit, given the decimal places of the base and the quote token;
//! and fee rates as percentages.

use vstd::prelude::*;
use crate::decimal::{decimal_div, decimal_mul, decimal_powu, option_view, DecimalPrice, MAX_MANTISSA};
use crate::error::EngineError;
use crate::fee::{fee_factor, lemma_fee_factor_reconstructs};
use crate::power::{lemma_pow10_monotone, pow10};

verus! {

/// Binary places of the fractional part of a Q64.64 fixed-point price.
pub const SCALE_OFFSET: u8 = 64;

/// `price * 10^up / 10^down` as the decimal arithmetic gives it, the
/// multiplication first.
pub open spec fn scaled_price(price: (int, nat), up: nat, down: nat) -> Option<(int, nat)> {
    match decimal_powu((10int, 0nat), up) {
        None => None,
        Some(numerator) => match decimal_mul(price, numerator) {
            None => None,
            Some(product) => match decimal_powu((10int, 0nat), down) {
                None => None,
                Some(denominator) => decimal_div(product, denominator),
            },
        },
    }
}

/// `10^up * price / 10^down` as the decimal arithmetic gives it, both powers
/// first.
pub open spec fn unscaled_price(price: (int, nat), up: nat, down: nat) -> Option<(int, nat)> {
    match (decimal_powu((10int, 0nat), up), decimal_powu((10int, 0nat), down)) {
        (Some(numerator), Some(denominator)) => match decimal_mul(numerator, price) {
            None => None,
            Some(product) => decimal_div(product, denominator),
        },
        _ => None,
    }
}

/// The fixed-point unit of a fee rate: a rate of one is `FEE_PRECISION`.
pub const FEE_PRECISION: u64 = 1_000_000_000;

/// `fee_rate / FEE_PRECISION * 100` as the decimal arithmetic gives it.
pub open spec fn fee_percent(fee_rate: nat) -> Option<(int, nat)> {
    if fee_rate > MAX_MANTISSA {
        None
    } else {
        match decimal_div((fee_rate as int, 0nat), (FEE_PRECISION as int, 0nat)) {
            None => None,
            Some(share) => decimal_mul(share, (100int, 0nat)),
        }
    }
}

/// `bin_step * base_factor * 10^power_factor * 1000`, the base fee of a
/// factor pair as a multiple of `100 / FEE_PRECISION` percent.
pub open spec fn base_fee_numerator(bin_step: nat, base_factor: nat, power_factor: nat) -> nat {
    bin_step * base_factor * 1000 * pow10(power_factor)
}

/// `base_fee_numerator / FEE_PRECISION` as the decimal arithmetic gives it.
pub open spec fn base_fee_percent(bin_step: nat, base_factor: nat, power_factor: nat) -> Option<
    (int, nat),
> {
    let numerator = base_fee_numerator(bin_step, base_factor, power_factor);
    if numerator > MAX_MANTISSA {
        None
    } else {
        decimal_div((numerator as int, 0nat), (FEE_PRECISION as int, 0nat))
    }
}

/// `q / 2^64` as the decimal arithmetic gives it.
pub open spec fn q64x64_price(q: nat) -> Option<(int, nat)> {
    if q > MAX_MANTISSA {
        None
    } else {
        match decimal_powu((2int, 0nat), SCALE_OFFSET as nat) {
            None => None,
            Some(one) => decimal_div((q as int, 0nat), one),
        }
    }
}

/// The price of one atomic unit of the base token, in atomic units of the
/// quote token: `price_per_token * 10^quote_token_decimal /
/// 10^base_token_decimal`.
///
/// Fails with `Overflow`, and with nothing else, exactly where a step of the
/// decimal arithmetic has no result.
pub fn price_per_token_to_per_lamport(
    price_per_token: &DecimalPrice,
    base_token_decimal: u8,
    quote_token_decimal: u8,
) -> (r: Result<DecimalPrice, EngineError>)
    ensures
        match r {
            Ok(p) => scaled_price(
                price_per_token@,
                quote_token_decimal as nat,
                base_token_decimal as nat,
            ) == Some(p@),
            Err(e) => e == EngineError::Overflow && scaled_price(
                price_per_token@,
                quote_token_decimal as nat,
                base_token_decimal as nat,
            ) is None,
        },
{
    let ten = DecimalPrice::from_integer(10);
    let numerator = match ten.checked_powu(quote_token_decimal as u64) {
        Some(n) => n,
        None => {
            return Err(EngineError::Overflow);
        },
    };
    let product = match price_per_token.checked_mul(&numerator) {
        Some(p) => p,
        None => {
            return Err(EngineError::Overflow);
        },
    };
    let denominator = match ten.checked_powu(base_token_decimal as u64) {
        Some(d) => d,
        None => {
            return Err(EngineError::Overflow);
        },
    };
    match product.checked_div(&denominator) {
        Some(p) => Ok(p),
        None => Err(EngineError::Overflow),
    }
}

/// The price of one whole base token, in whole quote tokens:
/// `10^base_token_decimal * price_per_lamport / 10^quote_token_decimal`.
///
/// Fails with `Overflow`, and with nothing else, exactly where a step of the
/// decimal arithmetic has no result.
pub fn price_per_lamport_to_price_per_token(
    price_per_lamport: &DecimalPrice,
    base_token_decimal: u8,
    quote_token_decimal: u8,
) -> (r: Result<DecimalPrice, EngineError>)
    ensures
        match r {
            Ok(p) => unscaled_price(
                price_per_lamport@,
                base_token_decimal as nat,
                quote_token_decimal as nat,
            ) == Some(p@),
            Err(e) => e == EngineError::Overflow && unscaled_price(
                price_per_lamport@,
                base_token_decimal as nat,
                quote_token_decimal as nat,
            ) is None,
        },
{
    let ten = DecimalPrice::from_integer(10);
    let one_base = match ten.checked_powu(base_token_decimal as u64) {
        Some(n) => n,
        None => {
            return Err(EngineError::Overflow);
        },
    };
    let one_quote = match ten.checked_powu(quote_token_decimal as u64) {
        Some(n) => n,
        None => {
            return Err(EngineError::Overflow);
        },
    };
    let product = match one_base.checked_mul(price_per_lamport) {
        Some(p) => p,
        None => {
            return Err(EngineError::Overflow);
        },
    };
    match product.checked_div(&one_quote) {
        Some(p) => Ok(p),
        None => Err(EngineError::Overflow),
    }
}

/// A fixed-point fee rate as a percentage: `fee_rate / FEE_PRECISION * 100`;
/// `None` where 96 bits do not hold the argument or the arithmetic has no
/// result.
pub fn fee_rate_to_fee_pct(fee_rate: u128) -> (r: Option<DecimalPrice>)
    ensures
        option_view(r) == fee_percent(fee_rate as nat),
{
    let rate = match DecimalPrice::from_u128(fee_rate) {
        Some(rate) => rate,
        None => {
            return None;
        },
    };
    match rate.checked_div(&DecimalPrice::from_u64(FEE_PRECISION)) {
        Some(share) => share.checked_mul(&DecimalPrice::from_integer(100)),
        None => None,
    }
}

/// Fee law: the pair that encodes `fee_bps` basis points has the base fee
/// numerator `fee_bps * 10^7`, which over `FEE_PRECISION` is `fee_bps / 100`
/// percent.
pub proof fn lemma_encoded_fee_numerator(bin_step: nat, fee_bps: nat)
    requires
        fee_factor(bin_step, fee_bps) is Ok,
    ensures
        ({
            let (b, p) = fee_factor(bin_step, fee_bps)->Ok_0;
            base_fee_numerator(bin_step, b, p) == fee_bps * 10_000_000
        }),
{
    lemma_fee_factor_reconstructs(bin_step, fee_bps);
    let (b, p) = fee_factor(bin_step, fee_bps)->Ok_0;
    let t = pow10(p);
    assert(bin_step * b * 1000 * t == (bin_step * (b * t)) * 1000) by (nonlinear_arith);
}

/// The base fee of a factor pair as a percentage:
/// `bin_step * base_factor * 10^base_fee_power_factor * 1000 / FEE_PRECISION`;
/// `None` where 96 bits do not hold the numerator or the division has no
/// result.
pub fn base_fee_pct(bin_step: u16, base_factor: u16, base_fee_power_factor: u8) -> (r: Option<
    DecimalPrice,
>)
    ensures
        option_view(r) == base_fee_percent(
            bin_step as nat,
            base_factor as nat,
            base_fee_power_factor as nat,
        ),
{
    proof {
        assert(bin_step * base_factor <= 0xffff * 0xffff) by (nonlinear_arith)
            requires
                0 <= bin_step <= 0xffff,
                0 <= base_factor <= 0xffff,
        ;
    }
    let product: u128 = (bin_step as u128) * (base_factor as u128);
    let start: u128 = product * 1000;
    let mut numerator: u128 = start;
    let mut i: u8 = 0;
    proof {
        assert(pow10(0) == 1);
        assert(start * pow10(0) == start);
        if start == 0 {
            assert(bin_step as nat * base_factor as nat * 1000 * pow10(
                base_fee_power_factor as nat,
            ) == 0) by (nonlinear_arith)
                requires
                    bin_step as nat * base_factor as nat * 1000 == 0,
            ;
        }
    }
    if start > 0 {
        while i < base_fee_power_factor
            invariant
                i <= base_fee_power_factor,
                start == bin_step * base_factor * 1000,
                start > 0,
                numerator == start * pow10(i as nat),
                numerator <= MAX_MANTISSA,
            decreases base_fee_power_factor - i,
        {
            proof {
                let a = start as int;
                let p = pow10(i as nat) as int;
                assert(pow10((i + 1) as nat) == 10 * pow10(i as nat));
                assert(a * (10 * p) == (a * p) * 10) by (nonlinear_arith);
                if numerator > 0xffff_ffff_ffff_ffff_ffff_ffffu128 / 10 {
                    lemma_pow10_monotone((i + 1) as nat, base_fee_power_factor as nat);
                    let q = pow10((i + 1) as nat) as int;
                    let t = pow10(base_fee_power_factor as nat) as int;
                    assert(a * t >= a * q) by (nonlinear_arith)
                        requires
                            a > 0,
                            t >= q,
                    ;
                }
            }
            if numerator > 0xffff_ffff_ffff_ffff_ffff_ffffu128 / 10 {
                return None;
            }
            numerator = numerator * 10;
            i = i + 1;
        }
    }
    match DecimalPrice::from_u128(numerator) {
        Some(n) => n.checked_div(&DecimalPrice::from_u64(FEE_PRECISION)),
        None => None,
    }
}

/// A Q64.64 fixed-point price as a decimal: `q64x64_price / 2^64`; `None`
/// where 96 bits do not hold the argument or the arithmetic has no result.
pub fn q64x64_price_to_decimal(q64x64_price: u128) -> (r: Option<DecimalPrice>)
    ensures
        option_view(r) == self::q64x64_price(q64x64_price as nat),
{
    let q = match DecimalPrice::from_u128(q64x64_price) {
        Some(q) => q,
        None => {
            return None;
        },
    };
    match DecimalPrice::from_integer(2).checked_powu(SCALE_OFFSET as u64) {
        Some(one) => q.checked_div(&one),
        None => None,
    }
}

} // verus!
