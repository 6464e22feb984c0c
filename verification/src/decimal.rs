//! Fixed-precision decimal numbers: a signed 96-bit mantissa and a scale of at
//! most 28 decimal places, with the arithmetic of the `rust_decimal` crate.
//!
//! A value is modelled by the pair `(mantissa, scale)` and stands for
//! `mantissa / 10^scale`. The arithmetic itself is not proved here: each
//! operation of `rust_decimal` is reached through one function whose
//! contract is taken on trust, and its result is known to the verifier only
//! through an uninterpreted name. Every [`DecimalPrice`] holds a pair that
//! `Decimal::from_i128_with_scale` accepts, so the conversion in those
//! functions does not fail.

use vstd::prelude::*;
use rust_decimal::Decimal;
use rust_decimal::MathematicalOps;
use rust_decimal::prelude::ToPrimitive;
use crate::double::double_is_whole;
use crate::power::pow10;

verus! {

/// The largest magnitude a mantissa may have, `2^96 - 1`.
pub const MAX_MANTISSA: i128 = 0xffff_ffff_ffff_ffff_ffff_ffff;

/// The largest scale, in decimal places.
pub const MAX_SCALE: u32 = 28;

/// Whether `(mantissa, scale)` is a pair that a decimal can hold.
pub open spec fn decimal_wf(v: (int, nat)) -> bool {
    -MAX_MANTISSA <= v.0 <= MAX_MANTISSA && v.1 <= MAX_SCALE
}

/// The integer part of `mantissa / 10^scale`, rounded toward zero.
pub open spec fn decimal_trunc(v: (int, nat)) -> int {
    if v.0 >= 0 {
        v.0 / (pow10(v.1) as int)
    } else {
        -((-v.0) / (pow10(v.1) as int))
    }
}

/// The largest integer not above `mantissa / 10^scale`.
pub open spec fn decimal_floor(v: (int, nat)) -> int {
    v.0 / (pow10(v.1) as int)
}

/// The smallest integer not below `mantissa / 10^scale`.
pub open spec fn decimal_ceil(v: (int, nat)) -> int {
    -((-v.0) / (pow10(v.1) as int))
}

/// Whether `mantissa / 10^scale` is a whole number.
pub open spec fn decimal_is_whole(v: (int, nat)) -> bool {
    v.0 % (pow10(v.1) as int) == 0
}

/// The largest magnitude up to which every whole number is a double, `2^53`.
pub const MAX_WHOLE_DOUBLE: i64 = 0x20_0000_0000_0000;

/// What is known of the double that a decimal is converted to: there is
/// one, and the double of a whole number of at most `2^53` in magnitude is
/// that number.
pub open spec fn double_bits_agree(a: (int, nat), bits: Option<u64>) -> bool {
    &&& bits is Some
    &&& decimal_is_whole(a) && -MAX_WHOLE_DOUBLE <= decimal_trunc(a) <= MAX_WHOLE_DOUBLE
        ==> double_is_whole(bits->Some_0, decimal_trunc(a))
}

/// What `Decimal::checked_add` returns for two decimals.
pub uninterp spec fn decimal_add(a: (int, nat), b: (int, nat)) -> Option<(int, nat)>;

/// What `Decimal::checked_sub` returns for two decimals.
pub uninterp spec fn decimal_sub(a: (int, nat), b: (int, nat)) -> Option<(int, nat)>;

/// What `Decimal::checked_mul` returns for two decimals.
pub uninterp spec fn decimal_mul(a: (int, nat), b: (int, nat)) -> Option<(int, nat)>;

/// What `Decimal::checked_div` returns for two decimals.
pub uninterp spec fn decimal_div(a: (int, nat), b: (int, nat)) -> Option<(int, nat)>;

/// What `MathematicalOps::checked_log10` returns for a decimal.
pub uninterp spec fn decimal_log10(a: (int, nat)) -> Option<(int, nat)>;

/// What `MathematicalOps::checked_powu` returns for a decimal and an exponent.
pub uninterp spec fn decimal_powu(a: (int, nat), exp: nat) -> Option<(int, nat)>;

/// What `MathematicalOps::checked_powi` returns for a decimal and an exponent.
pub uninterp spec fn decimal_powi(a: (int, nat), exp: int) -> Option<(int, nat)>;

/// What `MathematicalOps::checked_powd` returns for a decimal and a decimal
/// exponent.
pub uninterp spec fn decimal_powd(a: (int, nat), exp: (int, nat)) -> Option<(int, nat)>;

/// A decimal number `mantissa / 10^scale`.
#[derive(Clone, Copy, Debug)]
pub struct DecimalPrice {
    mantissa: i128,
    scale: u32,
}

impl View for DecimalPrice {
    type V = (int, nat);

    closed spec fn view(&self) -> (int, nat) {
        (self.mantissa as int, self.scale as nat)
    }
}

/// The model of an optional decimal.
pub open spec fn option_view(r: Option<DecimalPrice>) -> Option<(int, nat)> {
    match r {
        Some(d) => Some(d@),
        None => None,
    }
}

impl DecimalPrice {
    #[verifier::type_invariant]
    spec fn inv(self) -> bool {
        -MAX_MANTISSA <= self.mantissa <= MAX_MANTISSA && self.scale <= MAX_SCALE
    }

    /// The decimal `mantissa / 10^scale`, if the pair is one a decimal can hold.
    pub fn new(mantissa: i128, scale: u32) -> (r: Option<DecimalPrice>)
        ensures
            decimal_wf((mantissa as int, scale as nat)) ==> option_view(r) == Some(
                (mantissa as int, scale as nat),
            ),
            !decimal_wf((mantissa as int, scale as nat)) ==> r is None,
    {
        if scale > MAX_SCALE || mantissa > MAX_MANTISSA || mantissa < -MAX_MANTISSA {
            None
        } else {
            Some(DecimalPrice { mantissa, scale })
        }
    }

    /// The whole number `value`.
    pub fn from_integer(value: i64) -> (r: DecimalPrice)
        ensures
            r@ == (value as int, 0nat),
    {
        DecimalPrice { mantissa: value as i128, scale: 0 }
    }

    /// The whole number `value`.
    pub fn from_u64(value: u64) -> (r: DecimalPrice)
        ensures
            r@ == (value as int, 0nat),
    {
        DecimalPrice { mantissa: value as i128, scale: 0 }
    }

    /// The whole number `value`, if 96 bits hold it.
    pub fn from_u128(value: u128) -> (r: Option<DecimalPrice>)
        ensures
            value <= MAX_MANTISSA ==> option_view(r) == Some((value as int, 0nat)),
            value > MAX_MANTISSA ==> r is None,
    {
        if value > 0xffff_ffff_ffff_ffff_ffff_ffff {
            None
        } else {
            Some(DecimalPrice { mantissa: value as i128, scale: 0 })
        }
    }

    /// The mantissa.
    pub fn mantissa(&self) -> (m: i128)
        ensures
            m == self@.0,
            -MAX_MANTISSA <= m <= MAX_MANTISSA,
    {
        proof {
            use_type_invariant(self);
        }
        self.mantissa
    }

    /// The number of decimal places.
    pub fn scale(&self) -> (s: u32)
        ensures
            s == self@.1,
            s <= MAX_SCALE,
    {
        proof {
            use_type_invariant(self);
        }
        self.scale
    }

    /// `self + other`, by `Decimal::checked_add`: `None` where the sum cannot
    /// be held. Trusted: the result is the crate's, known here by name only.
    #[verifier::external_body]
    pub(crate) fn checked_add(&self, other: &DecimalPrice) -> (r: Option<DecimalPrice>)
        ensures
            option_view(r) == decimal_add(self@, other@),
    {
        let a = Decimal::from_i128_with_scale(self.mantissa, self.scale);
        let b = Decimal::from_i128_with_scale(other.mantissa, other.scale);
        match a.checked_add(b) {
            Some(d) => Some(DecimalPrice { mantissa: d.mantissa(), scale: d.scale() }),
            None => None,
        }
    }

    /// `self - other`, by `Decimal::checked_sub`: `None` where the difference
    /// cannot be held. Trusted: the result is known here by name only.
    #[verifier::external_body]
    pub(crate) fn checked_sub(&self, other: &DecimalPrice) -> (r: Option<DecimalPrice>)
        ensures
            option_view(r) == decimal_sub(self@, other@),
    {
        let a = Decimal::from_i128_with_scale(self.mantissa, self.scale);
        let b = Decimal::from_i128_with_scale(other.mantissa, other.scale);
        match a.checked_sub(b) {
            Some(d) => Some(DecimalPrice { mantissa: d.mantissa(), scale: d.scale() }),
            None => None,
        }
    }

    /// `self * other`, by `Decimal::checked_mul`: `None` on overflow.
    /// Trusted: the result is known here by name only.
    #[verifier::external_body]
    pub(crate) fn checked_mul(&self, other: &DecimalPrice) -> (r: Option<DecimalPrice>)
        ensures
            option_view(r) == decimal_mul(self@, other@),
    {
        let a = Decimal::from_i128_with_scale(self.mantissa, self.scale);
        let b = Decimal::from_i128_with_scale(other.mantissa, other.scale);
        match a.checked_mul(b) {
            Some(d) => Some(DecimalPrice { mantissa: d.mantissa(), scale: d.scale() }),
            None => None,
        }
    }

    /// `self / other`, by `Decimal::checked_div`: `None` for a zero divisor
    /// or on overflow. Trusted: the result is known here by name only.
    #[verifier::external_body]
    pub(crate) fn checked_div(&self, other: &DecimalPrice) -> (r: Option<DecimalPrice>)
        ensures
            option_view(r) == decimal_div(self@, other@),
    {
        let a = Decimal::from_i128_with_scale(self.mantissa, self.scale);
        let b = Decimal::from_i128_with_scale(other.mantissa, other.scale);
        match a.checked_div(b) {
            Some(d) => Some(DecimalPrice { mantissa: d.mantissa(), scale: d.scale() }),
            None => None,
        }
    }

    /// The base-10 logarithm, by `MathematicalOps::checked_log10`: `None`
    /// where there is none. Trusted: the result is known here by name only.
    #[verifier::external_body]
    pub(crate) fn checked_log10(&self) -> (r: Option<DecimalPrice>)
        ensures
            option_view(r) == decimal_log10(self@),
    {
        let a = Decimal::from_i128_with_scale(self.mantissa, self.scale);
        match a.checked_log10() {
            Some(d) => Some(DecimalPrice { mantissa: d.mantissa(), scale: d.scale() }),
            None => None,
        }
    }

    /// `self` raised to `exp`, by `MathematicalOps::checked_powu`: `None` on
    /// overflow. Trusted: the result is known here by name only.
    #[verifier::external_body]
    pub(crate) fn checked_powu(&self, exp: u64) -> (r: Option<DecimalPrice>)
        ensures
            option_view(r) == decimal_powu(self@, exp as nat),
    {
        let a = Decimal::from_i128_with_scale(self.mantissa, self.scale);
        match a.checked_powu(exp) {
            Some(d) => Some(DecimalPrice { mantissa: d.mantissa(), scale: d.scale() }),
            None => None,
        }
    }

    /// `self` raised to the signed `exp`, by `MathematicalOps::checked_powi`:
    /// `None` on overflow. Trusted: the result is known here by name only.
    #[verifier::external_body]
    pub(crate) fn checked_powi(&self, exp: i64) -> (r: Option<DecimalPrice>)
        ensures
            option_view(r) == decimal_powi(self@, exp as int),
    {
        let a = Decimal::from_i128_with_scale(self.mantissa, self.scale);
        match a.checked_powi(exp) {
            Some(d) => Some(DecimalPrice { mantissa: d.mantissa(), scale: d.scale() }),
            None => None,
        }
    }

    /// `self` raised to the decimal `exp`, by `MathematicalOps::checked_powd`:
    /// `None` on overflow. Trusted: the result is known here by name only.
    #[verifier::external_body]
    pub(crate) fn checked_powd(&self, exp: &DecimalPrice) -> (r: Option<DecimalPrice>)
        ensures
            option_view(r) == decimal_powd(self@, exp@),
    {
        let a = Decimal::from_i128_with_scale(self.mantissa, self.scale);
        let b = Decimal::from_i128_with_scale(exp.mantissa, exp.scale);
        match a.checked_powd(b) {
            Some(d) => Some(DecimalPrice { mantissa: d.mantissa(), scale: d.scale() }),
            None => None,
        }
    }

    /// The largest whole number not above `self`, by `Decimal::floor`.
    /// Trusted: the result has scale zero and is that whole number.
    #[verifier::external_body]
    pub(crate) fn floor(&self) -> (r: DecimalPrice)
        ensures
            r@ == (decimal_floor(self@), 0nat),
    {
        let d = Decimal::from_i128_with_scale(self.mantissa, self.scale).floor();
        DecimalPrice { mantissa: d.mantissa(), scale: d.scale() }
    }

    /// The smallest whole number not below `self`, by `Decimal::ceil`.
    /// Trusted: the result has scale zero and is that whole number.
    #[verifier::external_body]
    pub(crate) fn ceil(&self) -> (r: DecimalPrice)
        ensures
            r@ == (decimal_ceil(self@), 0nat),
    {
        let d = Decimal::from_i128_with_scale(self.mantissa, self.scale).ceil();
        DecimalPrice { mantissa: d.mantissa(), scale: d.scale() }
    }

    /// `self` as a 32-bit integer, by `ToPrimitive::to_i32`. Trusted: the
    /// fraction is dropped toward zero, and the result is `None` exactly when
    /// what is left does not fit.
    #[verifier::external_body]
    pub(crate) fn to_i32(&self) -> (r: Option<i32>)
        ensures
            r == (if i32::MIN <= decimal_trunc(self@) <= i32::MAX {
                Some(decimal_trunc(self@) as i32)
            } else {
                None
            }),
    {
        Decimal::from_i128_with_scale(self.mantissa, self.scale).to_i32()
    }

    /// `self` as an unsigned 64-bit integer, by `ToPrimitive::to_u64`.
    /// Trusted: a negative number gives `None`; otherwise the fraction is
    /// dropped and the result is `None` exactly when what is left does not fit.
    #[verifier::external_body]
    pub(crate) fn to_u64(&self) -> (r: Option<u64>)
        ensures
            r == (if 0 <= self@.0 && decimal_trunc(self@) <= u64::MAX {
                Some(decimal_trunc(self@) as u64)
            } else {
                None
            }),
    {
        Decimal::from_i128_with_scale(self.mantissa, self.scale).to_u64()
    }

    /// The bit pattern of the binary double that `ToPrimitive::to_f64` gives
    /// for `self`. Trusted: there always is one, and for a whole number of at
    /// most `2^53` in magnitude it is the double of that number, which the
    /// crate gets by a cast of the integer part. Nothing is claimed of the
    /// double of a number with a fraction: the crate rounds it with a
    /// floating power of ten, whose precision may differ between machines,
    /// so that result has no name.
    #[verifier::external_body]
    pub(crate) fn to_double_bits(&self) -> (bits: Option<u64>)
        ensures
            double_bits_agree(self@, bits),
    {
        match Decimal::from_i128_with_scale(self.mantissa, self.scale).to_f64() {
            Some(v) => Some(v.to_bits()),
            None => None,
        }
    }
}

} // verus!
