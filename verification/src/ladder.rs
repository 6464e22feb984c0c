//! The geometric price ladder: rung `id` carries the price `base^id`, where
//! `base = 1 + bin_step / 10000`. A price is placed on the ladder by the
//! quotient `log10(price) / log10(base)`.

use vstd::prelude::*;
use crate::decimal::{
    decimal_add, decimal_ceil, decimal_div, decimal_floor, decimal_is_whole, decimal_log10,
    decimal_trunc, double_bits_agree, DecimalPrice,
};
use crate::double::{
    double_is_whole, lemma_double_is_whole_unique, whole_from_double_bits, whole_of_double,
};
use crate::error::EngineError;
use crate::power::{lemma_pow10_positive, pow10};

verus! {

/// Basis points in one: the ladder ratio is `1 + bin_step / BASIS_POINT_MAX`.
pub const BASIS_POINT_MAX: i32 = 10000;

/// The direction in which a price between two rungs is moved onto a rung.
#[derive(Debug, Clone, Copy, PartialEq, Eq, Structural)]
pub enum Rounding {
    /// To the rung above.
    Up,
    /// To the rung below.
    Down,
}

/// The ladder ratio `1 + bin_step / 10000` as the decimal arithmetic gives it.
pub open spec fn ladder_base(bin_step: nat) -> Option<(int, nat)> {
    match decimal_div((bin_step as int, 0nat), (BASIS_POINT_MAX as int, 0nat)) {
        Some(bps) => decimal_add((1int, 0nat), bps),
        None => None,
    }
}

/// Where `price` lies on the ladder: `log10(price) / log10(base)`.
///
/// A zero step, a price that is not positive and a ratio whose logarithm is
/// zero are invalid; an arithmetic step without a result is an overflow.
pub open spec fn ladder_position(bin_step: nat, price: (int, nat)) -> Result<
    (int, nat),
    EngineError,
> {
    if bin_step == 0 || price.0 <= 0 {
        Err(EngineError::InvalidInput)
    } else {
        match ladder_base(bin_step) {
            None => Err(EngineError::Overflow),
            Some(base) => match (decimal_log10(price), decimal_log10(base)) {
                (Some(log_price), Some(log_base)) => if log_base.0 == 0 {
                    Err(EngineError::InvalidInput)
                } else {
                    match decimal_div(log_price, log_base) {
                        Some(q) => Ok(q),
                        None => Err(EngineError::Overflow),
                    }
                },
                _ => Err(EngineError::Overflow),
            },
        }
    }
}

/// The rung that `position` is rounded to, if 32 bits hold it.
pub open spec fn rounded_rung(position: (int, nat), rounding: Rounding) -> Result<
    i32,
    EngineError,
> {
    let t = match rounding {
        Rounding::Up => decimal_ceil(position),
        Rounding::Down => decimal_floor(position),
    };
    if i32::MIN <= t <= i32::MAX {
        Ok(t as i32)
    } else {
        Err(EngineError::Overflow)
    }
}

/// The rung for `price`, rounded in the given direction.
pub open spec fn id_from_price(bin_step: nat, price: (int, nat), rounding: Rounding) -> Result<
    i32,
    EngineError,
> {
    match ladder_position(bin_step, price) {
        Ok(q) => rounded_rung(q, rounding),
        Err(e) => Err(e),
    }
}

/// Computes the ladder ratio of `bin_step`.
pub fn ladder_base_of(bin_step: u16) -> (r: Option<DecimalPrice>)
    ensures
        crate::decimal::option_view(r) == ladder_base(bin_step as nat),
{
    let step = DecimalPrice::from_integer(bin_step as i64);
    let unit = DecimalPrice::from_integer(BASIS_POINT_MAX as i64);
    match step.checked_div(&unit) {
        Some(bps) => DecimalPrice::from_integer(1).checked_add(&bps),
        None => None,
    }
}

/// Computes where `price` lies on the ladder of `bin_step`, as a decimal
/// number of rungs.
pub fn position_on_ladder(bin_step: u16, price: &DecimalPrice) -> (r: Result<
    DecimalPrice,
    EngineError,
>)
    ensures
        match r {
            Ok(q) => ladder_position(bin_step as nat, price@) == Ok::<(int, nat), EngineError>(
                q@,
            ),
            Err(e) => ladder_position(bin_step as nat, price@) == Err::<(int, nat), EngineError>(
                e,
            ),
        },
{
    if bin_step == 0 || price.mantissa() <= 0 {
        return Err(EngineError::InvalidInput);
    }
    let base = match ladder_base_of(bin_step) {
        Some(b) => b,
        None => {
            return Err(EngineError::Overflow);
        },
    };
    let log_price = match price.checked_log10() {
        Some(l) => l,
        None => {
            return Err(EngineError::Overflow);
        },
    };
    let log_base = match base.checked_log10() {
        Some(l) => l,
        None => {
            return Err(EngineError::Overflow);
        },
    };
    if log_base.mantissa() == 0 {
        return Err(EngineError::InvalidInput);
    }
    match log_price.checked_div(&log_base) {
        Some(q) => Ok(q),
        None => Err(EngineError::Overflow),
    }
}

/// Rounds a ladder position to a rung.
pub fn round_to_rung(position: &DecimalPrice, rounding: Rounding) -> (r: Result<i32, EngineError>)
    ensures
        r == rounded_rung(position@, rounding),
{
    let whole = match rounding {
        Rounding::Up => position.ceil(),
        Rounding::Down => position.floor(),
    };
    proof {
        assert(pow10(whole@.1) == 1);
        assert(crate::decimal::decimal_trunc(whole@) == whole@.0);
    }
    match whole.to_i32() {
        Some(id) => Ok(id),
        None => Err(EngineError::Overflow),
    }
}

/// The rung for `price` on the ladder of `bin_step`: the position
/// `log10(price) / log10(base)`, moved up to the next whole number for
/// `Rounding::Up` and down for `Rounding::Down`.
///
/// Fails with `InvalidInput` for a zero step or a price that is not positive,
/// and with `Overflow` where the arithmetic or the 32-bit rung cannot hold a
/// result.
pub fn get_id_from_price(bin_step: u16, price: &DecimalPrice, rounding: Rounding) -> (r: Result<
    i32,
    EngineError,
>)
    ensures
        r == id_from_price(bin_step as nat, price@, rounding),
{
    match position_on_ladder(bin_step, price) {
        Ok(q) => round_to_rung(&q, rounding),
        Err(e) => Err(e),
    }
}

/// The rung that a position lies on exactly, as its double tells: the whole
/// number that the double with the pattern `bits` is, where 32 bits hold it
/// and it is the floor or the ceiling of the position; `None` otherwise.
pub open spec fn precise_rung(position: (int, nat), bits: u64) -> Option<i32> {
    match whole_of_double(bits) {
        Some(v) => if decimal_floor(position) <= v <= decimal_ceil(position) {
            Some(v)
        } else {
            None
        },
        None => None,
    }
}

/// Decides from the double of a ladder position, given by its bit pattern,
/// whether the position lies on a rung, and on which.
pub fn precise_rung_of(position: &DecimalPrice, bits: u64) -> (r: Option<i32>)
    ensures
        r == precise_rung(position@, bits),
{
    match whole_from_double_bits(bits) {
        Some(v) => {
            let below = position.floor();
            let above = position.ceil();
            if below.mantissa() <= v as i128 && v as i128 <= above.mantissa() {
                Some(v)
            } else {
                None
            }
        },
        None => None,
    }
}

/// A whole position is its own floor and ceiling.
pub proof fn lemma_whole_position(q: (int, nat))
    requires
        decimal_is_whole(q),
    ensures
        decimal_floor(q) == decimal_trunc(q),
        decimal_ceil(q) == decimal_trunc(q),
{
    lemma_floor_ceil(q);
}

/// The rung on which `price` lies exactly, or `None` for a price between two
/// rungs. The ladder position is converted to a binary double, and the price
/// counts as lying on a rung when that double is a whole number that 32 bits
/// hold and that is the floor or the ceiling of the position.
///
/// Fails as [`position_on_ladder`] does, and only then. Where the position
/// exists, the result is what [`precise_rung`] gives for the double of the
/// position. Of that double this much is known: a position that is a whole
/// number has the double of that number. So a whole position in the 32-bit
/// range gives its rung, which is where rounding down and rounding up agree;
/// and a rung that is returned is the one that rounding down or rounding up
/// gives, never one further away.
pub fn get_precise_id_from_price(bin_step: u16, price: &DecimalPrice) -> (r: Result<
    Option<i32>,
    EngineError,
>)
    ensures
        match ladder_position(bin_step as nat, price@) {
            Ok(q) => {
                &&& exists|bits: u64| #[trigger]
                    double_bits_agree(q, Some(bits)) && r == Ok::<Option<i32>, EngineError>(
                        precise_rung(q, bits),
                    )
                &&& match r {
                    Ok(Some(v)) => decimal_floor(q) <= v <= decimal_ceil(q),
                    Ok(None) => !(decimal_is_whole(q) && i32::MIN <= decimal_trunc(q)
                        <= i32::MAX),
                    Err(_) => false,
                }
                &&& decimal_is_whole(q) && i32::MIN <= decimal_trunc(q) <= i32::MAX ==> r == Ok::<
                    Option<i32>,
                    EngineError,
                >(Some(decimal_trunc(q) as i32))
                &&& rounded_rung(q, Rounding::Down) is Ok && rounded_rung(q, Rounding::Down)
                    == rounded_rung(q, Rounding::Up) ==> r == Ok::<Option<i32>, EngineError>(
                    Some(rounded_rung(q, Rounding::Down)->Ok_0),
                )
                &&& r is Ok && r->Ok_0 is Some ==> rounded_rung(q, Rounding::Down) == Ok::<
                    i32,
                    EngineError,
                >(r->Ok_0->Some_0) || rounded_rung(q, Rounding::Up) == Ok::<i32, EngineError>(
                    r->Ok_0->Some_0,
                )
            },
            Err(e) => r == Err::<Option<i32>, EngineError>(e),
        },
{
    match position_on_ladder(bin_step, price) {
        Ok(q) => match q.to_double_bits() {
            Some(bits) => {
                let r = precise_rung_of(&q, bits);
                proof {
                    assert(double_bits_agree(q@, Some(bits)));
                    lemma_floor_ceil(q@);
                    if decimal_is_whole(q@) && i32::MIN <= decimal_trunc(q@) <= i32::MAX {
                        let t = decimal_trunc(q@) as i32;
                        lemma_whole_position(q@);
                        assert(double_is_whole(bits, t as int));
                        let c = whole_of_double(bits)->Some_0;
                        lemma_double_is_whole_unique(bits, t as int, c as int);
                    }
                }
                Ok(r)
            },
            None => Ok(None),
        },
        Err(e) => Err(e),
    }
}

/// Rounding law, one direction at a time: where rounding down gives a rung,
/// rounding up gives the same rung for a whole position and the next rung
/// otherwise, except that above the highest rung of the 32-bit range there
/// is none, and rounding up overflows. Likewise from rounding up to rounding
/// down, with the lowest rung.
pub proof fn lemma_rounding_succeeds(bin_step: nat, price: (int, nat))
    requires
        ladder_position(bin_step, price) is Ok,
    ensures
        ({
            let q = ladder_position(bin_step, price)->Ok_0;
            let down = id_from_price(bin_step, price, Rounding::Down);
            let up = id_from_price(bin_step, price, Rounding::Up);
            &&& down is Ok ==> if down->Ok_0 == i32::MAX && !decimal_is_whole(q) {
                up == Err::<i32, EngineError>(EngineError::Overflow)
            } else {
                up is Ok && down->Ok_0 <= up->Ok_0 <= down->Ok_0 + 1 && (down->Ok_0 == up->Ok_0
                    <==> decimal_is_whole(q))
            }
            &&& up is Ok ==> if up->Ok_0 == i32::MIN && !decimal_is_whole(q) {
                down == Err::<i32, EngineError>(EngineError::Overflow)
            } else {
                down is Ok && down->Ok_0 <= up->Ok_0 <= down->Ok_0 + 1 && (down->Ok_0 == up->Ok_0
                    <==> decimal_is_whole(q))
            }
        }),
{
    let q = ladder_position(bin_step, price)->Ok_0;
    lemma_floor_ceil(q);
}

/// Rounding law: wherever both directions give a rung, the lower rung is not
/// above the upper one, they are at most one apart, and they agree exactly
/// when the ladder position is a whole number.
pub proof fn lemma_rounding_monotone(bin_step: nat, price: (int, nat))
    requires
        id_from_price(bin_step, price, Rounding::Down) is Ok,
        id_from_price(bin_step, price, Rounding::Up) is Ok,
    ensures
        ({
            let down = id_from_price(bin_step, price, Rounding::Down)->Ok_0;
            let up = id_from_price(bin_step, price, Rounding::Up)->Ok_0;
            let q = ladder_position(bin_step, price)->Ok_0;
            &&& down <= up <= down + 1
            &&& (down == up <==> decimal_is_whole(q))
        }),
{
    let q = ladder_position(bin_step, price)->Ok_0;
    lemma_floor_ceil(q);
}

/// `floor(x) <= ceil(x) <= floor(x) + 1`, with equality on the left exactly
/// for whole `x`.
pub proof fn lemma_floor_ceil(x: (int, nat))
    ensures
        decimal_floor(x) <= decimal_ceil(x) <= decimal_floor(x) + 1,
        decimal_floor(x) == decimal_ceil(x) <==> decimal_is_whole(x),
{
    let p = pow10(x.1) as int;
    lemma_pow10_positive(x.1);
    let m = x.0;
    vstd::arithmetic::div_mod::lemma_fundamental_div_mod(m, p);
    vstd::arithmetic::div_mod::lemma_fundamental_div_mod(-m, p);
    vstd::arithmetic::div_mod::lemma_mod_bound(m, p);
    vstd::arithmetic::div_mod::lemma_mod_bound(-m, p);
    let a = m / p;
    let b = (-m) / p;
    let r = m % p;
    let s = (-m) % p;
    assert(p * (a + b) + (r + s) == 0) by (nonlinear_arith)
        requires
            m == p * a + r,
            -m == p * b + s,
    ;
    assert(a + b == 0 || a + b == -1) by (nonlinear_arith)
        requires
            p * (a + b) + (r + s) == 0,
            0 <= r < p,
            0 <= s < p,
    ;
    if a + b == 0 {
        assert(r + s == 0) by (nonlinear_arith)
            requires
                p * (a + b) + (r + s) == 0,
                a + b == 0,
        ;
    } else {
        assert(r + s == p) by (nonlinear_arith)
            requires
                p * (a + b) + (r + s) == 0,
                a + b == -1,
        ;
    }
}

} // verus!
