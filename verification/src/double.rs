//! Reading a whole number out of the bit pattern of a binary double.
//!
//! The pattern has a sign bit, eleven exponent bits and 52 fraction bits. A
//! normal number is `+-(2^52 + fraction) * 2^(exponent - 1075)`.

use vstd::prelude::*;
use vstd::arithmetic::power2::{
    lemma2_to64, lemma2_to64_rest, lemma_pow2_pos, lemma_pow2_strictly_increases,
    lemma_pow2_unfold, pow2,
};

verus! {

/// `2^52`, the number of fraction patterns.
pub const FRACTION_SPAN: u64 = 0x10_0000_0000_0000;

/// `2^63`, the sign bit.
pub const SIGN_BIT: u64 = 0x8000_0000_0000_0000;

/// Whether the sign bit of `bits` is set.
pub open spec fn double_negative(bits: u64) -> bool {
    bits >= SIGN_BIT
}

/// The biased exponent field of `bits`.
pub open spec fn double_exponent(bits: u64) -> nat {
    ((bits / FRACTION_SPAN) % 2048) as nat
}

/// The fraction field of `bits`.
pub open spec fn double_fraction(bits: u64) -> nat {
    (bits % FRACTION_SPAN) as nat
}

/// Whether the double with the pattern `bits` is the whole number `v`.
///
/// Both zeros are 0; subnormal numbers, infinities and NaNs are no whole
/// number; a normal number is `v` when sign and magnitude agree.
pub open spec fn double_is_whole(bits: u64, v: int) -> bool {
    let e = double_exponent(bits);
    let significand = FRACTION_SPAN + double_fraction(bits);
    let magnitude = if v < 0 {
        -v
    } else {
        v
    };
    if e == 0 {
        double_fraction(bits) == 0 && v == 0
    } else if e == 2047 {
        false
    } else {
        &&& v != 0
        &&& (v < 0 <==> double_negative(bits))
        &&& if e >= 1075 {
            magnitude == significand * pow2((e - 1075) as nat)
        } else {
            magnitude * pow2((1075 - e) as nat) == significand
        }
    }
}

/// A double is at most one whole number.
pub proof fn lemma_double_is_whole_unique(bits: u64, v: int, w: int)
    requires
        double_is_whole(bits, v),
        double_is_whole(bits, w),
    ensures
        v == w,
{
    let e = double_exponent(bits);
    if 0 < e < 1075 {
        let d = pow2((1075 - e) as nat) as int;
        lemma_pow2_pos((1075 - e) as nat);
        let a = if v < 0 {
            -v
        } else {
            v
        };
        let b = if w < 0 {
            -w
        } else {
            w
        };
        assert(a == b) by (nonlinear_arith)
            requires
                a * d == b * d,
                d > 0,
        ;
    }
}

/// The whole number that the double with the pattern `bits` is, where it is
/// one that 32 bits hold; `None` for every other pattern.
pub open spec fn whole_of_double(bits: u64) -> Option<i32> {
    if exists|v: i32| double_is_whole(bits, v as int) {
        Some(choose|v: i32| double_is_whole(bits, v as int))
    } else {
        None
    }
}

/// Reads the whole number that the double with the pattern `bits` is, where
/// it is one that 32 bits hold; `None` for every other pattern.
pub fn whole_from_double_bits(bits: u64) -> (r: Option<i32>)
    ensures
        r == whole_of_double(bits),
        match r {
            Some(v) => double_is_whole(bits, v as int),
            None => forall|v: i32| !double_is_whole(bits, v as int),
        },
{
    let r = decode_whole(bits);
    proof {
        if let Some(v) = r {
            let c = choose|c: i32| double_is_whole(bits, c as int);
            lemma_double_is_whole_unique(bits, v as int, c as int);
        }
    }
    r
}

/// The decoding behind [`whole_from_double_bits`], field by field.
fn decode_whole(bits: u64) -> (r: Option<i32>)
    ensures
        match r {
            Some(v) => double_is_whole(bits, v as int),
            None => forall|v: i32| !double_is_whole(bits, v as int),
        },
{
    let negative = bits >= SIGN_BIT;
    let e: u64 = (bits / FRACTION_SPAN) % 2048;
    let fraction: u64 = bits % FRACTION_SPAN;
    let significand: u64 = FRACTION_SPAN + fraction;
    if e == 0 {
        return if fraction == 0 {
            Some(0)
        } else {
            None
        };
    }
    if e < 1023 || e > 1054 {
        proof {
            lemma2_to64();
            lemma2_to64_rest();
            assert forall|v: i32| !double_is_whole(bits, v as int) by {
                let magnitude: int = if v < 0 {
                    -(v as int)
                } else {
                    v as int
                };
                if e == 2047 {
                } else if e >= 1075 {
                    let w = pow2((e - 1075) as nat) as int;
                    lemma_pow2_pos((e - 1075) as nat);
                    assert(significand * w >= significand) by (nonlinear_arith)
                        requires
                            w >= 1,
                            significand >= 0,
                    ;
                } else if e > 1054 {
                    let s = (1075 - e) as nat;
                    let w = pow2(s) as int;
                    if s < 20 {
                        lemma_pow2_strictly_increases(s, 20);
                    }
                    assert(magnitude * w < 0x10_0000_0000_0000) by (nonlinear_arith)
                        requires
                            0 <= magnitude <= 0x8000_0000,
                            0 <= w <= 0x10_0000,
                    ;
                } else {
                    let s = (1075 - e) as nat;
                    let w = pow2(s) as int;
                    if s > 53 {
                        lemma_pow2_strictly_increases(53, s);
                    }
                    if magnitude > 0 {
                        assert(magnitude * w >= 0x20_0000_0000_0000) by (nonlinear_arith)
                            requires
                                magnitude >= 1,
                                w >= 0x20_0000_0000_0000,
                        ;
                    } else {
                        assert(magnitude * w == 0) by (nonlinear_arith)
                            requires
                                magnitude == 0,
                        ;
                    }
                }
            }
        }
        return None;
    }
    let shift: u64 = 1075 - e;
    let mut d: u64 = 1;
    let mut i: u64 = 0;
    proof {
        lemma2_to64();
    }
    while i < shift
        invariant
            i <= shift <= 52,
            d == pow2(i as nat),
            d <= 0x10_0000_0000_0000,
        decreases shift - i,
    {
        proof {
            lemma_pow2_unfold((i + 1) as nat);
            lemma2_to64_rest();
            if i + 1 < 52 {
                lemma_pow2_strictly_increases((i + 1) as nat, 52);
            }
        }
        d = d * 2;
        i = i + 1;
    }
    proof {
        lemma2_to64();
        lemma2_to64_rest();
        if shift > 21 {
            lemma_pow2_strictly_increases(21, shift as nat);
        }
        assert(d >= 0x20_0000);
    }
    if significand % d != 0 {
        proof {
            assert forall|v: i32| !double_is_whole(bits, v as int) by {
                let magnitude: int = if v < 0 {
                    -(v as int)
                } else {
                    v as int
                };
                if magnitude * d == significand {
                    vstd::arithmetic::div_mod::lemma_mod_multiples_basic(magnitude, d as int);
                }
            }
        }
        return None;
    }
    let magnitude: u64 = significand / d;
    proof {
        assert(magnitude * d == significand) by {
            vstd::arithmetic::div_mod::lemma_fundamental_div_mod(significand as int, d as int);
            assert(d * magnitude == magnitude * d) by (nonlinear_arith);
        }
        assert(magnitude < 0x1_0000_0000) by (nonlinear_arith)
            requires
                magnitude * d == significand,
                significand < 0x20_0000_0000_0000,
                d >= 0x20_0000,
        ;
        assert(magnitude > 0) by (nonlinear_arith)
            requires
                magnitude * d == significand,
                significand > 0,
        ;
    }
    if negative {
        if magnitude <= 0x8000_0000 {
            let v: i64 = -(magnitude as i64);
            Some(v as i32)
        } else {
            proof {
                assert forall|v: i32| !double_is_whole(bits, v as int) by {
                    let m: int = if v < 0 {
                        -(v as int)
                    } else {
                        v as int
                    };
                    if m * d == significand {
                        assert(m == magnitude) by (nonlinear_arith)
                            requires
                                m * d == significand,
                                magnitude * d == significand,
                                d > 0,
                        ;
                    }
                }
            }
            None
        }
    } else {
        if magnitude <= 0x7fff_ffff {
            Some(magnitude as i32)
        } else {
            proof {
                assert forall|v: i32| !double_is_whole(bits, v as int) by {
                    let m: int = if v < 0 {
                        -(v as int)
                    } else {
                        v as int
                    };
                    if m * d == significand {
                        assert(m == magnitude) by (nonlinear_arith)
                            requires
                                m * d == significand,
                                magnitude * d == significand,
                                d > 0,
                        ;
                    }
                }
            }
            None
        }
    }
}

} // verus!
