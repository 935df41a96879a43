//! Logarithm, power and cosine on binary fixed-point numbers.
//!
//! The three functions are computed by `substrate_fixed` on its `I64F64`
//! type: a signed 128-bit integer `bits` that stands for `bits / 2^64`. This
//! module converts between that scale and the decimal scale of [`Rate`], and
//! gives each outside result a name so that contracts can speak of it.

use crate::fixed::{Rate, SignedRate, ACCURACY};
use substrate_fixed::transcendental::{cos, log2, pow};
use substrate_fixed::types::I64F64;
use vstd::prelude::*;

verus! {

/// Raw parts in one unit of the binary scale.
pub const BINARY_ONE: u128 = 18_446_744_073_709_551_616;

/// The largest angle, on the binary scale, of which the cosine is taken:
/// eight radians, a little more than a full turn.
pub const MAX_ANGLE_BITS: i128 = 147_573_952_589_676_412_928;

/// What `substrate_fixed::transcendental::log2` returns for the `I64F64`
/// number with these bits: the bits of its result, `None` for its error.
pub uninterp spec fn log2_bits(operand: i128) -> Option<i128>;

/// What `substrate_fixed::transcendental::pow` returns for the two `I64F64`
/// numbers with these bits: the bits of its result, `None` for its error.
pub uninterp spec fn pow_bits(operand: i128, exponent: i128) -> Option<i128>;

/// The bits of what `substrate_fixed::transcendental::cos` returns for the
/// `I64F64` angle with these bits.
pub uninterp spec fn cos_bits(angle: i128) -> i128;

/// A decimal raw value on the binary scale, rounded towards zero.
pub open spec fn to_bits_raw(inner: int) -> int {
    inner * (BINARY_ONE as int) / (ACCURACY as int)
}

/// A non-negative binary raw value on the decimal scale, rounded towards zero.
pub open spec fn from_bits_raw(bits: int) -> int {
    bits * (ACCURACY as int) / (BINARY_ONE as int)
}

/// Calls `substrate_fixed::transcendental::log2` from `I64F64` to `I64F64`.
/// The function is integer arithmetic on its argument alone; nothing is
/// claimed of its value beyond the name.
#[verifier::external_body]
pub(crate) fn log2_i64f64(operand: i128) -> (r: Option<i128>)
    ensures
        r == log2_bits(operand),
{
    log2::<I64F64, I64F64>(I64F64::from_bits(operand)).ok().map(|v: I64F64| v.to_bits())
}

/// Calls `substrate_fixed::transcendental::pow` from `I64F64` to `I64F64`.
/// The function is integer arithmetic on its arguments alone; nothing is
/// claimed of its value beyond the name. It multiplies the logarithm of the
/// operand by the exponent, and the outside multiplication of two negative
/// numbers can fail an assertion, so only exponents from zero on are
/// admitted.
#[verifier::external_body]
pub(crate) fn pow_i64f64(operand: i128, exponent: i128) -> (r: Option<i128>)
    requires
        0 <= exponent,
    ensures
        r == pow_bits(operand, exponent),
{
    pow::<I64F64, I64F64>(I64F64::from_bits(operand), I64F64::from_bits(exponent)).ok().map(
        |v: I64F64| v.to_bits(),
    )
}

/// Calls `substrate_fixed::transcendental::cos` on an `I64F64` angle. The
/// outside function reduces its argument by repeated subtraction of a full
/// turn and adds a quarter turn first, so only angles from zero to eight
/// radians are admitted. Nothing is claimed of its value beyond the name.
#[verifier::external_body]
pub(crate) fn cos_i64f64(angle: i128) -> (r: i128)
    requires
        0 <= angle <= MAX_ANGLE_BITS,
    ensures
        r == cos_bits(angle),
{
    cos::<I64F64>(I64F64::from_bits(angle)).to_bits()
}

/// The bits of the `I64F64` number nearest below `x`, which are never
/// negative, or `None` where `x` is `2^63` or more and has no such number.
pub fn to_i64f64(x: Rate) -> (r: Option<i128>)
    ensures
        to_bits_raw(x.inner as int) <= i128::MAX ==> r == Some(to_bits_raw(x.inner as int) as i128),
        to_bits_raw(x.inner as int) > i128::MAX ==> r.is_none(),
        r matches Some(bits) ==> 0 <= bits,
{
    let whole: u128 = x.inner / ACCURACY;
    let part: u128 = x.inner % ACCURACY;
    proof {
        lemma_scale_split(x.inner as int, ACCURACY as int, BINARY_ONE as int);
    }
    if whole >= 9_223_372_036_854_775_808 {
        None
    } else {
        let bits: u128 = whole * BINARY_ONE + part * BINARY_ONE / ACCURACY;
        Some(bits as i128)
    }
}

/// The rate nearest below the `I64F64` number with these bits, or `None`
/// where the number is negative.
pub fn to_fixedu128(bits: i128) -> (r: Option<Rate>)
    ensures
        bits >= 0 ==> r == Some(Rate { inner: from_bits_raw(bits as int) as u128 }),
        bits < 0 ==> r.is_none(),
{
    if bits < 0 {
        None
    } else {
        Some(magnitude_to_rate(bits as u128))
    }
}

/// The rate nearest below `magnitude / 2^64`.
pub fn magnitude_to_rate(magnitude: u128) -> (r: Rate)
    ensures
        r.inner as int == from_bits_raw(magnitude as int),
{
    let whole: u128 = magnitude / BINARY_ONE;
    let part: u128 = magnitude % BINARY_ONE;
    proof {
        lemma_scale_split(magnitude as int, BINARY_ONE as int, ACCURACY as int);
    }
    Rate { inner: whole * ACCURACY + part * ACCURACY / BINARY_ONE }
}

/// The absolute value of `bits`.
pub open spec fn magnitude_of(bits: i128) -> int {
    if bits < 0 {
        -(bits as int)
    } else {
        bits as int
    }
}

/// The signed number that the `I64F64` bits stand for, on the decimal scale.
pub open spec fn signed_from_bits_spec(bits: i128) -> SignedRate {
    SignedRate {
        negative: bits < 0,
        magnitude: Rate { inner: from_bits_raw(magnitude_of(bits)) as u128 },
    }
}

/// The signed number nearest to zero from the `I64F64` number with these
/// bits.
pub fn signed_from_bits(bits: i128) -> (r: SignedRate)
    ensures
        r == signed_from_bits_spec(bits),
{
    let magnitude: u128 = if bits >= 0 {
        bits as u128
    } else if bits == i128::MIN {
        170_141_183_460_469_231_731_687_303_715_884_105_728
    } else {
        (-bits) as u128
    };
    SignedRate { negative: bits < 0, magnitude: magnitude_to_rate(magnitude) }
}

/// Scaling `x` from denominator `from` to denominator `to` can be done on the
/// whole and the fractional part of `x` apart.
proof fn lemma_scale_split(x: int, from: int, to: int)
    requires
        0 <= x,
        0 < from,
        0 < to,
    ensures
        x * to / from == (x / from) * to + (x % from) * to / from,
        0 <= (x % from) * to / from < to,
        (x / from) * to <= x * to / from,
{
    let q = x / from;
    let m = x % from;
    assert(x == from * q + m) by {
        vstd::arithmetic::div_mod::lemma_fundamental_div_mod(x, from);
    }
    assert(x * to == (q * to) * from + m * to) by (nonlinear_arith)
        requires
            x == from * q + m,
    ;
    assert(0 <= m < from) by {
        vstd::arithmetic::div_mod::lemma_mod_bound(x, from);
    }
    assert(0 <= m * to < from * to) by (nonlinear_arith)
        requires
            0 <= m < from,
            0 < to,
    ;
    assert(((q * to) * from + m * to) / from == q * to + (m * to) / from) by {
        vstd::arithmetic::div_mod::lemma_hoist_over_denominator(m * to, q * to, from as nat);
        assert((q * to) * from == from * (q * to)) by (nonlinear_arith);
    }
    assert(0 <= (m * to) / from < to) by (nonlinear_arith)
        requires
            0 <= m * to < from * to,
            0 < from,
    ;
}

} // verus!
