//! The cosine interest-rate curve.
//!
//! The borrow rate falls from `y0` at an idle pool to its minimum `ym` at the
//! utilisation `xm`, and rises from there to `y1` at a fully lent pool.

use crate::fixed::{
    checked_add_spec, checked_div_spec, checked_mul_spec, checked_sub_spec, mul_raw, Rate,
    SignedRate, ACCURACY,
};
use crate::transcendental::{
    cos_bits, cos_i64f64, from_bits_raw, log2_bits, log2_i64f64, pow_bits, pow_i64f64,
    signed_from_bits, signed_from_bits_spec, to_bits_raw, to_fixedu128, to_i64f64,
    MAX_ANGLE_BITS,
};
use vstd::prelude::*;

verus! {

/// Raw value of the largest exponent that [`pow_approx`] hands to the power
/// function: one thousand.
pub const MAX_EXPONENT: u128 = 1_000_000_000_000_000_000_000;

/// Raw value of sixty: a power whose exponent takes its base-2 logarithm
/// down to minus sixty or below is under `2^-60`, which is less than one
/// raw part of a rate.
pub const VANISHING_LOG2: u128 = 60_000_000_000_000_000_000;

/// Raw value of two.
pub const TWO: u128 = 2_000_000_000_000_000_000;

/// Raw value of pi.
pub const PI: u128 = 3_141_592_653_589_793_238;

/// The base-2 logarithm of `x`, as [`log2_approx`] returns it.
pub open spec fn log2_approx_spec(x: Rate) -> Result<SignedRate, &'static str> {
    if x.inner == 0 {
        Err("Log of zero is undefined")
    } else if x.inner == ACCURACY {
        Ok(SignedRate { negative: false, magnitude: Rate { inner: 0 } })
    } else if to_bits_raw(x.inner as int) > i128::MAX {
        Err("Log2 error")
    } else {
        match log2_bits(to_bits_raw(x.inner as int) as i128) {
            Some(bits) => Ok(signed_from_bits_spec(bits)),
            None => Err("Log2 error"),
        }
    }
}

/// The base-2 logarithm of `x`.
///
/// Zero has no logarithm and one has logarithm zero; every other value is
/// handed to the outside logarithm on the binary scale.
pub fn log2_approx(x: Rate) -> (r: Result<SignedRate, &'static str>)
    ensures
        r == log2_approx_spec(x),
{
    if x.is_zero() {
        return Err("Log of zero is undefined");
    }
    if x.inner == ACCURACY {
        return Ok(SignedRate { negative: false, magnitude: Rate::zero() });
    }
    match to_i64f64(x) {
        None => Err("Log2 error"),
        Some(bits) => match log2_i64f64(bits) {
            Some(l) => Ok(signed_from_bits(l)),
            None => Err("Log2 error"),
        },
    }
}

/// Whether `base` raised to `exp` is below the resolution of a rate: the
/// base is below one, and `exp` times the size of its base-2 logarithm is
/// sixty or more.
pub open spec fn power_vanishes(base: Rate, exp: Rate) -> bool {
    base.inner < ACCURACY && match log2_approx_spec(base) {
        Ok(log2_base) => log2_base.negative && mul_raw(
            exp.inner as int,
            log2_base.magnitude.inner as int,
        ) >= VANISHING_LOG2,
        Err(_) => false,
    }
}

/// `base` raised to `exp`, as [`pow_approx`] returns it.
pub open spec fn pow_approx_spec(base: Rate, exp: Rate) -> Result<Rate, &'static str> {
    if base.inner == 0 && exp.inner == 0 {
        Ok(Rate { inner: ACCURACY })
    } else if base.inner == 0 {
        Ok(Rate { inner: 0 })
    } else if exp.inner == 0 {
        Ok(Rate { inner: ACCURACY })
    } else if exp.inner > MAX_EXPONENT {
        if base.inner > ACCURACY {
            Ok(Rate { inner: u128::MAX })
        } else if base.inner < ACCURACY {
            Ok(Rate { inner: 0 })
        } else {
            Ok(Rate { inner: ACCURACY })
        }
    } else if power_vanishes(base, exp) {
        Ok(Rate { inner: 0 })
    } else if to_bits_raw(base.inner as int) > i128::MAX {
        Err("Pow error")
    } else {
        match pow_bits(to_bits_raw(base.inner as int) as i128, to_bits_raw(exp.inner as int) as i128) {
            Some(bits) => if bits >= 0 {
                Ok(Rate { inner: from_bits_raw(bits as int) as u128 })
            } else {
                Err("Pow error")
            },
            None => Err("Pow error"),
        }
    }
}

/// Tells whether `base` raised to `exp` is below the resolution of a rate.
pub fn power_is_vanishing(base: Rate, exp: Rate) -> (r: bool)
    ensures
        r == power_vanishes(base, exp),
{
    if base.inner >= ACCURACY {
        return false;
    }
    match log2_approx(base) {
        Ok(log2_base) => {
            if !log2_base.negative {
                return false;
            }
            match exp.checked_mul(&log2_base.magnitude) {
                Some(product) => product.inner >= VANISHING_LOG2,
                None => true,
            }
        },
        Err(_) => false,
    }
}

/// `base` raised to `exp`.
///
/// A zero base, a zero exponent and exponents above one thousand are
/// answered at once, the last by the limit that the power tends to. So is a
/// power of a base below one that is too small for a rate to hold: it is
/// zero. Every other pair is handed to the outside power function on the
/// binary scale.
pub fn pow_approx(base: Rate, exp: Rate) -> (r: Result<Rate, &'static str>)
    ensures
        r == pow_approx_spec(base, exp),
{
    if base.is_zero() && exp.is_zero() {
        return Ok(Rate::one());
    }
    if base.is_zero() {
        return Ok(Rate::zero());
    }
    if exp.is_zero() {
        return Ok(Rate::one());
    }
    if exp.inner > MAX_EXPONENT {
        return if base.inner > ACCURACY {
            Ok(Rate::max_value())
        } else if base.inner < ACCURACY {
            Ok(Rate::min_value())
        } else {
            Ok(Rate::one())
        };
    }
    if power_is_vanishing(base, exp) {
        return Ok(Rate::zero());
    }
    let base_bits = match to_i64f64(base) {
        Some(bits) => bits,
        None => {
            return Err("Pow error");
        },
    };
    let exp_bits = match to_i64f64(exp) {
        Some(bits) => bits,
        None => {
            return Err("Pow error");
        },
    };
    match pow_i64f64(base_bits, exp_bits) {
        Some(bits) => match to_fixedu128(bits) {
            Some(power) => Ok(power),
            None => Err("Pow error"),
        },
        None => Err("Pow error"),
    }
}

/// `c` cut to the range of the cosine, from minus one to one.
pub open spec fn within_unit(c: SignedRate) -> SignedRate {
    SignedRate {
        negative: c.negative,
        magnitude: if c.magnitude.inner > ACCURACY {
            Rate { inner: ACCURACY }
        } else {
            c.magnitude
        },
    }
}

/// The cosine of `x` radians, as [`cos_approx`] returns it.
pub open spec fn cos_approx_spec(x: Rate) -> Result<SignedRate, &'static str> {
    if to_bits_raw(x.inner as int) > MAX_ANGLE_BITS {
        Err("Cosine argument out of range")
    } else {
        Ok(within_unit(signed_from_bits_spec(cos_bits(to_bits_raw(x.inner as int) as i128))))
    }
}

/// The cosine of `x` radians, for `x` up to eight.
///
/// The outside cosine is an approximation and may leave the range of the
/// cosine by its error; the result is cut to that range.
pub fn cos_approx(x: Rate) -> (r: Result<SignedRate, &'static str>)
    ensures
        r == cos_approx_spec(x),
        r matches Ok(c) ==> c.magnitude.inner <= ACCURACY,
{
    match to_i64f64(x) {
        Some(bits) => {
            if bits > MAX_ANGLE_BITS {
                Err("Cosine argument out of range")
            } else {
                let c = signed_from_bits(cos_i64f64(bits));
                if c.magnitude.inner > ACCURACY {
                    Ok(SignedRate { negative: c.negative, magnitude: Rate::one() })
                } else {
                    Ok(c)
                }
            }
        },
        None => Err("Cosine argument out of range"),
    }
}

/// The exponent `-1 / log2_xm` of the curve, as [`curve_exponent`] returns it.
pub open spec fn curve_exponent_spec(log2_xm: SignedRate) -> Result<Rate, &'static str> {
    if log2_xm.magnitude.inner == 0 {
        Err("Division by zero")
    } else if !log2_xm.negative {
        Err("Multiplication overflow")
    } else {
        match checked_div_spec(Rate { inner: ACCURACY }, log2_xm.magnitude) {
            Some(n) => Ok(n),
            None => Err("Division by zero"),
        }
    }
}

/// The exponent `n = -1 / log2(xm)` that puts the minimum of the curve at
/// `xm`, from the logarithm of `xm`.
///
/// The logarithm of a fraction below one is negative, so the exponent is
/// positive. A logarithm of zero has no reciprocal, and a positive one would
/// give a negative exponent, which no rate can hold.
pub fn curve_exponent(log2_xm: SignedRate) -> (r: Result<Rate, &'static str>)
    ensures
        r == curve_exponent_spec(log2_xm),
{
    if log2_xm.magnitude.is_zero() {
        return Err("Division by zero");
    }
    if !log2_xm.negative {
        return Err("Multiplication overflow");
    }
    match Rate::one().checked_div(&log2_xm.magnitude) {
        Some(n) => Ok(n),
        None => Err("Division by zero"),
    }
}

/// The angle `2 * pi * power`, as [`curve_angle`] returns it.
pub open spec fn curve_angle_spec(power: Rate) -> Result<Rate, &'static str> {
    match checked_mul_spec(Rate { inner: TWO }, Rate { inner: PI }) {
        Some(turn) => match checked_mul_spec(turn, power) {
            Some(angle) => Ok(angle),
            None => Err("Multiplication overflow"),
        },
        None => Err("Multiplication overflow"),
    }
}

/// The angle `X = 2 * pi * power` at which the cosine is taken.
pub fn curve_angle(power: Rate) -> (r: Result<Rate, &'static str>)
    ensures
        r == curve_angle_spec(power),
{
    let two = Rate::from_inner(TWO);
    let pi = Rate::from_inner(PI);
    match two.checked_mul(&pi) {
        Some(turn) => match turn.checked_mul(&power) {
            Some(angle) => Ok(angle),
            None => Err("Multiplication overflow"),
        },
        None => Err("Multiplication overflow"),
    }
}

/// Raw value of `1 + c`.
pub open spec fn one_plus(c: SignedRate) -> int {
    if c.negative {
        ACCURACY - c.magnitude.inner
    } else {
        ACCURACY + c.magnitude.inner
    }
}

/// Raw value of `1 - c`.
pub open spec fn one_minus(c: SignedRate) -> int {
    if c.negative {
        ACCURACY + c.magnitude.inner
    } else {
        ACCURACY - c.magnitude.inner
    }
}

/// The parameters of the cosine curve; each is a fraction between zero and
/// one.
#[derive(Clone, Copy, Debug, PartialEq, Eq, PartialOrd, Structural)]
pub struct InterestRateModel {
    /// Interest rate at 0% utilisation.
    pub y0: Rate,
    /// Interest rate at 100% utilisation.
    pub y1: Rate,
    /// Utilisation at which the rate is lowest.
    pub xm: Rate,
    /// The lowest interest rate.
    pub ym: Rate,
}

impl InterestRateModel {
    pub fn new(y0: Rate, y1: Rate, xm: Rate, ym: Rate) -> (r: Self)
        ensures
            r == (InterestRateModel { y0, y1, xm, ym }),
    {
        Self { y0, y1, xm, ym }
    }

    /// The default curve: 5% at an idle pool, a minimum of 3% at 80%
    /// utilisation, 15% at a fully lent pool.
    pub open spec fn spec_default() -> Self {
        InterestRateModel {
            y0: Rate { inner: 50_000_000_000_000_000 },
            y1: Rate { inner: 150_000_000_000_000_000 },
            xm: Rate { inner: 800_000_000_000_000_000 },
            ym: Rate { inner: 30_000_000_000_000_000 },
        }
    }

    /// The rate that the curve gives where the cosine at the utilisation's
    /// angle is `c`:
    /// `(edge * (1 + c) + ym * (1 - c)) / 2`, with `edge` the rate `y0` up to
    /// `xm` and `y1` above it, each product rounded towards zero.
    ///
    /// An error is owed where `1 + c` or `1 - c` is negative, or where a
    /// product or the sum is too large for a rate; both products with
    /// `1 + c` are formed, whichever of them counts.
    pub open spec fn blend_spec(self, utilization: Rate, c: SignedRate) -> Result<
        Rate,
        &'static str,
    > {
        let up = one_plus(c);
        let down = one_minus(c);
        let edge = if utilization.inner > self.xm.inner {
            self.y1.inner
        } else {
            self.y0.inner
        };
        let sum = mul_raw(edge as int, up) + mul_raw(self.ym.inner as int, down);
        if up < 0 || up > u128::MAX {
            Err("Addition overflow")
        } else if down < 0 || down > u128::MAX {
            Err("Subtraction overflow")
        } else if mul_raw(self.y0.inner as int, up) > u128::MAX || mul_raw(
            self.y1.inner as int,
            up,
        ) > u128::MAX || mul_raw(self.ym.inner as int, down) > u128::MAX {
            Err("Multiplication overflow")
        } else if sum > u128::MAX {
            Err("Addition overflow")
        } else {
            Ok(Rate { inner: (sum / 2) as u128 })
        }
    }

    /// The rate of the curve from the cosine `cos_x` of the utilisation's
    /// angle.
    pub fn blend(&self, utilization: Rate, cos_x: SignedRate) -> (r: Result<Rate, &'static str>)
        ensures
            r == self.blend_spec(utilization, cos_x),
    {
        let one = Rate::one();
        let heaviside = if utilization.inner > self.xm.inner {
            Rate::one()
        } else {
            Rate::zero()
        };
        let plus = if cos_x.negative {
            one.checked_sub(&cos_x.magnitude)
        } else {
            one.checked_add(&cos_x.magnitude)
        };
        let one_plus_cos = match plus {
            Some(v) => v,
            None => {
                return Err("Addition overflow");
            },
        };
        let minus = if cos_x.negative {
            one.checked_add(&cos_x.magnitude)
        } else {
            one.checked_sub(&cos_x.magnitude)
        };
        let one_minus_cos = match minus {
            Some(v) => v,
            None => {
                return Err("Subtraction overflow");
            },
        };
        let one_minus_heaviside = Rate::from_inner(ACCURACY - heaviside.inner);
        proof {
            lemma_mul_by_unit(self.y0.inner as int, one_plus_cos.inner as int);
            lemma_mul_by_unit(self.y1.inner as int, one_plus_cos.inner as int);
        }
        let term1 = match self.y0.checked_mul(&one_plus_cos) {
            Some(v) => match v.checked_mul(&one_minus_heaviside) {
                Some(w) => w,
                None => {
                    return Err("Multiplication overflow");
                },
            },
            None => {
                return Err("Multiplication overflow");
            },
        };
        let term2 = match self.y1.checked_mul(&one_plus_cos) {
            Some(v) => match v.checked_mul(&heaviside) {
                Some(w) => w,
                None => {
                    return Err("Multiplication overflow");
                },
            },
            None => {
                return Err("Multiplication overflow");
            },
        };
        let term3 = match self.ym.checked_mul(&one_minus_cos) {
            Some(v) => v,
            None => {
                return Err("Multiplication overflow");
            },
        };
        let result = match term1.checked_add(&term2) {
            Some(v) => match v.checked_add(&term3) {
                Some(w) => w,
                None => {
                    return Err("Addition overflow");
                },
            },
            None => {
                return Err("Addition overflow");
            },
        };
        proof {
            lemma_half(result.inner as int);
        }
        match result.checked_div(&Rate::from_inner(TWO)) {
            Some(v) => Ok(v),
            None => Err("Division by zero"),
        }
    }

    /// The borrow rate at `utilization`, as
    /// [`InterestRateModel::calculate_cosine_interest`] returns it.
    ///
    /// The three marked points of the curve are exact. Between them the rate
    /// is `blend_spec` at the cosine of `2 * pi * utilization^n`, with
    /// `n = -1 / log2(xm)`.
    pub open spec fn cosine_interest_spec(self, utilization: Rate) -> Result<Rate, &'static str> {
        if utilization.inner > ACCURACY {
            Err("Utilization ratio must be between 0 and 1")
        } else if utilization.inner == 0 {
            Ok(self.y0)
        } else if utilization.inner == ACCURACY {
            Ok(self.y1)
        } else if utilization == self.xm {
            Ok(self.ym)
        } else {
            match log2_approx_spec(self.xm) {
                Err(e) => Err(e),
                Ok(log2_xm) => match curve_exponent_spec(log2_xm) {
                    Err(e) => Err(e),
                    Ok(n) => match pow_approx_spec(utilization, n) {
                        Err(e) => Err(e),
                        Ok(power) => match curve_angle_spec(power) {
                            Err(e) => Err(e),
                            Ok(angle) => match cos_approx_spec(angle) {
                                Err(e) => Err(e),
                                Ok(c) => self.blend_spec(utilization, c),
                            },
                        },
                    },
                },
            }
        }
    }

    /// The borrow rate at `utilization`.
    ///
    /// A utilisation above one is refused. At zero the rate is `y0`, at one
    /// it is `y1` and at `xm` it is `ym`, each exactly.
    pub fn calculate_cosine_interest(&self, utilization: Rate) -> (r: Result<Rate, &'static str>)
        ensures
            r == self.cosine_interest_spec(utilization),
            utilization.inner > ACCURACY ==> r.is_err(),
            utilization.inner == 0 ==> r == Ok::<Rate, &'static str>(self.y0),
            utilization.inner == ACCURACY ==> r == Ok::<Rate, &'static str>(self.y1),
            0 < utilization.inner < ACCURACY && utilization == self.xm ==> r == Ok::<
                Rate,
                &'static str,
            >(self.ym),
    {
        if utilization.inner > ACCURACY {
            return Err("Utilization ratio must be between 0 and 1");
        }
        if utilization.is_zero() {
            return Ok(self.y0);
        }
        if utilization.inner == ACCURACY {
            return Ok(self.y1);
        }
        if utilization.inner == self.xm.inner {
            return Ok(self.ym);
        }
        let log2_xm = match log2_approx(self.xm) {
            Ok(v) => v,
            Err(e) => {
                return Err(e);
            },
        };
        let n = match curve_exponent(log2_xm) {
            Ok(v) => v,
            Err(e) => {
                return Err(e);
            },
        };
        let x_pow_n = match pow_approx(utilization, n) {
            Ok(v) => v,
            Err(e) => {
                return Err(e);
            },
        };
        let x = match curve_angle(x_pow_n) {
            Ok(v) => v,
            Err(e) => {
                return Err(e);
            },
        };
        let cos_x = match cos_approx(x) {
            Ok(v) => v,
            Err(e) => {
                return Err(e);
            },
        };
        self.blend(utilization, cos_x)
    }
}

impl Default for InterestRateModel {
    fn default() -> (r: Self)
        ensures
            r == InterestRateModel::spec_default(),
    {
        Self {
            y0: Rate::from_inner(50_000_000_000_000_000),
            y1: Rate::from_inner(150_000_000_000_000_000),
            xm: Rate::from_inner(800_000_000_000_000_000),
            ym: Rate::from_inner(30_000_000_000_000_000),
        }
    }
}

/// Multiplying by one changes nothing, and multiplying by zero gives zero.
proof fn lemma_mul_by_unit(a: int, b: int)
    requires
        0 <= a,
        0 <= b,
    ensures
        mul_raw(mul_raw(a, b), ACCURACY as int) == mul_raw(a, b),
        mul_raw(mul_raw(a, b), 0) == 0,
        0 <= mul_raw(a, b),
{
    let p = mul_raw(a, b);
    assert(0 <= a * b) by (nonlinear_arith)
        requires
            0 <= a,
            0 <= b,
    ;
    assert(p * 1_000_000_000_000_000_000 / 1_000_000_000_000_000_000 == p) by (nonlinear_arith);
    assert(p * 0 == 0) by (nonlinear_arith);
}

/// Dividing a rate by two halves its raw value.
proof fn lemma_half(s: int)
    requires
        0 <= s,
    ensures
        crate::fixed::div_raw(s, TWO as int) == s / 2,
{
    assert(s * 1_000_000_000_000_000_000 / 2_000_000_000_000_000_000 == s / 2)
        by (nonlinear_arith)
        requires
            0 <= s,
    ;
}

} // verus!
