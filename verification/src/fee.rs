//! Factoring a basis-point fee into the pair `(base_factor, power_factor)`.
//!
//! The ledger program rebuilds the fee as
//! `bin_step * base_factor * 10^power_factor`, so the pair must reproduce
//! `fee_bps * 10000` exactly or the request is refused.

use vstd::prelude::*;
use crate::error::EngineError;
use crate::power::{lemma_pow10_monotone, pow10};

verus! {

/// Strips factors of ten from `q` until it fits sixteen bits, counting them
/// from `p`; refuses when a digit other than zero would be lost.
pub open spec fn reduce_factor(q: nat, p: nat) -> Result<(nat, nat), EngineError>
    decreases q,
{
    if q <= 0xffff {
        Ok((q, p))
    } else if q % 10 != 0 {
        Err(EngineError::HasDecimals)
    } else {
        reduce_factor(q / 10, p + 1)
    }
}

/// The factor pair for `fee_bps` basis points on a ladder of step `bin_step`.
///
/// With `raw = fee_bps * 10000 / bin_step`: a zero step is invalid; a `raw`
/// strictly between 0 and 1 underflows; any other fractional `raw` is refused;
/// a whole `raw` is reduced by [`reduce_factor`].
pub open spec fn fee_factor(bin_step: nat, fee_bps: nat) -> Result<(nat, nat), EngineError> {
    let n = fee_bps * 10000;
    if bin_step == 0 {
        Err(EngineError::InvalidInput)
    } else if n % bin_step != 0 {
        if n < bin_step {
            Err(EngineError::Underflow)
        } else {
            Err(EngineError::HasDecimals)
        }
    } else {
        reduce_factor(n / bin_step, 0)
    }
}

/// Whatever [`reduce_factor`] accepts multiplies back to what it was given,
/// and it never strips a factor of ten that it did not have to.
pub proof fn lemma_reduce_factor_exact(q: nat, p: nat)
    ensures
        match reduce_factor(q, p) {
            Ok((b, e)) => {
                &&& e >= p
                &&& b <= 0xffff
                &&& b * pow10((e - p) as nat) == q
                &&& (e == p || b * 10 > 0xffff)
            },
            Err(e) => e == EngineError::HasDecimals && q > 0xffff,
        },
    decreases q,
{
    if q <= 0xffff {
        let one = pow10((p - p) as nat);
        assert(one == 1);
        assert(q * one == q) by (nonlinear_arith)
            requires
                one == 1,
        ;
    } else if q % 10 != 0 {
    } else {
        lemma_reduce_factor_exact(q / 10, p + 1);
        match reduce_factor(q / 10, p + 1) {
            Ok((b, e)) => {
                let k = (e - (p + 1)) as nat;
                let t = pow10(k);
                assert(pow10((e - p) as nat) == 10 * t);
                assert(b * t == q / 10);
                assert(q == 10 * (q / 10));
                assert(b * (10 * t) == 10 * (b * t)) by (nonlinear_arith);
                assert(b * pow10((e - p) as nat) == q);
                if e == p + 1 {
                    assert(t == 1);
                    assert(b * t == b) by (nonlinear_arith)
                        requires
                            t == 1,
                    ;
                }
            },
            Err(_) => {},
        }
    }
}

/// Reconstruction law: a pair that the encoder yields rebuilds the requested
/// fee without loss, `bin_step * base_factor * 10^power_factor ==
/// fee_bps * 10000`, the base factor fits sixteen bits, and the power factor
/// is the least one for which it does.
pub proof fn lemma_fee_factor_reconstructs(bin_step: nat, fee_bps: nat)
    requires
        fee_factor(bin_step, fee_bps) is Ok,
    ensures
        ({
            let (b, p) = fee_factor(bin_step, fee_bps)->Ok_0;
            &&& bin_step > 0
            &&& b <= 0xffff
            &&& bin_step * (b * pow10(p)) == fee_bps * 10000
            &&& (p == 0 || b * 10 > 0xffff)
        }),
{
    let n = fee_bps * 10000;
    lemma_reduce_factor_exact(n / bin_step, 0);
    let (b, p) = fee_factor(bin_step, fee_bps)->Ok_0;
    assert(b * pow10(p) == n / bin_step);
    assert(n == bin_step * (n / bin_step)) by {
        vstd::arithmetic::div_mod::lemma_fundamental_div_mod(n as int, bin_step as int);
    }
}

/// A value that is a sixteen-bit factor times a power of ten is reduced
/// without refusal.
pub proof fn lemma_reduce_factor_complete(q: nat, from: nat, b: nat, p: nat)
    requires
        b <= 0xffff,
        b * pow10(p) == q,
    ensures
        reduce_factor(q, from) is Ok,
    decreases p,
{
    if q > 0xffff {
        if p == 0 {
            assert(pow10(0) == 1);
            assert(b * 1 == b);
        } else {
            let t = pow10((p - 1) as nat);
            assert(pow10(p) == 10 * t);
            assert(b * (10 * t) == 10 * (b * t)) by (nonlinear_arith);
            assert(q == 10 * (b * t));
            lemma_reduce_factor_complete(q / 10, from + 1, b, (p - 1) as nat);
        }
    }
}

/// Refusal law: the encoder refuses only what cannot be encoded. Whenever
/// some sixteen-bit base factor `b` and some power factor `p` rebuild the
/// fee exactly on a ladder with a step above zero, the encoder succeeds.
pub proof fn lemma_fee_factor_complete(bin_step: nat, fee_bps: nat, b: nat, p: nat)
    requires
        bin_step > 0,
        b <= 0xffff,
        bin_step * (b * pow10(p)) == fee_bps * 10000,
    ensures
        fee_factor(bin_step, fee_bps) is Ok,
{
    let n = fee_bps * 10000;
    let q = b * pow10(p);
    assert(n % bin_step == 0 && n / bin_step == q) by {
        assert(n == q * bin_step) by (nonlinear_arith)
            requires
                bin_step * q == n,
        ;
        vstd::arithmetic::div_mod::lemma_mod_multiples_basic(q as int, bin_step as int);
        vstd::arithmetic::div_mod::lemma_div_multiples_vanish(q as int, bin_step as int);
    }
    lemma_reduce_factor_complete(q, 0, b, p);
}

/// Failure law: a zero step is the only invalid input, a fee whose factor
/// lies strictly between zero and one is the only underflow, and the encoder
/// reports neither an overflow nor a consistency violation.
pub proof fn lemma_fee_factor_failures(bin_step: nat, fee_bps: nat)
    ensures
        fee_factor(bin_step, fee_bps) == Err::<(nat, nat), EngineError>(EngineError::InvalidInput)
            <==> bin_step == 0,
        fee_factor(bin_step, fee_bps) == Err::<(nat, nat), EngineError>(EngineError::Underflow)
            <==> 0 < fee_bps * 10000 < bin_step,
        fee_factor(bin_step, fee_bps) != Err::<(nat, nat), EngineError>(EngineError::Overflow),
        fee_factor(bin_step, fee_bps) != Err::<(nat, nat), EngineError>(
            EngineError::ConsistencyViolation,
        ),
{
    let n = fee_bps * 10000;
    if bin_step > 0 {
        if n % bin_step == 0 {
            lemma_reduce_factor_exact(n / bin_step, 0);
        }
        if n < bin_step {
            vstd::arithmetic::div_mod::lemma_small_mod(n, bin_step);
        }
    }
}

/// Encodes `fee_bps` basis points for a ladder of step `bin_step`.
///
/// Succeeds with the pair given by [`fee_factor`], and fails with the error
/// given there; on success the pair rebuilds the fee exactly.
pub fn compute_base_factor_from_fee_bps(bin_step: u16, fee_bps: u16) -> (r: Result<
    (u16, u8),
    EngineError,
>)
    ensures
        match r {
            Ok((b, p)) => fee_factor(bin_step as nat, fee_bps as nat) == Ok::<
                (nat, nat),
                EngineError,
            >((b as nat, p as nat)) && bin_step * (b * pow10(p as nat)) == fee_bps * 10000,
            Err(e) => fee_factor(bin_step as nat, fee_bps as nat) == Err::<(nat, nat), EngineError>(
                e,
            ),
        },
{
    if bin_step == 0 {
        return Err(EngineError::InvalidInput);
    }
    let n: u32 = (fee_bps as u32) * 10000;
    let d: u32 = bin_step as u32;
    if n % d != 0 {
        if n < d {
            return Err(EngineError::Underflow);
        }
        return Err(EngineError::HasDecimals);
    }
    let raw: u32 = n / d;
    let mut q: u32 = raw;
    let mut p: u8 = 0;
    proof {
        assert(pow10(0) == 1);
    }
    while q > 0xffff
        invariant
            reduce_factor(q as nat, p as nat) == fee_factor(bin_step as nat, fee_bps as nat),
            q * pow10(p as nat) == raw,
            raw <= 655_350_000,
            p <= 5,
        decreases q,
    {
        if q % 10 != 0 {
            proof {
                assert(reduce_factor(q as nat, p as nat) == Err::<(nat, nat), EngineError>(
                    EngineError::HasDecimals,
                ));
            }
            return Err(EngineError::HasDecimals);
        }
        proof {
            let qn = q as nat;
            let pn = p as nat;
            assert(pow10(pn + 1) == 10 * pow10(pn));
            assert((qn / 10) * (10 * pow10(pn)) == qn * pow10(pn)) by (nonlinear_arith)
                requires
                    qn % 10 == 0,
            ;
            lemma_pow10_bound(pn + 1, (qn / 10), raw as nat);
        }
        q = q / 10;
        p = p + 1;
    }
    proof {
        lemma_fee_factor_reconstructs(bin_step as nat, fee_bps as nat);
    }
    Ok((q as u16, p))
}

/// A product `q * 10^p` of at most 655,350,000 whose `q` is above 6553 has
/// `p < 6`.
proof fn lemma_pow10_bound(p: nat, q: nat, total: nat)
    requires
        q * pow10(p) == total,
        total <= 655_350_000,
        q > 6553,
    ensures
        p < 6,
{
    if p >= 6 {
        lemma_pow10_monotone(6, p);
        assert(pow10(6) == 1_000_000) by {
            reveal_with_fuel(pow10, 7);
        }
        assert(q * pow10(p) >= 6554 * 1_000_000) by (nonlinear_arith)
            requires
                q >= 6554,
                pow10(p) >= 1_000_000,
        ;
    }
}

} // verus!
