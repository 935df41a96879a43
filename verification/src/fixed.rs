//! Decimal fixed-point numbers.
//!
//! [`Rate`] is an unsigned number with eighteen fractional digits, [`Ratio`] a
//! fraction of one counted in parts per million. Both are plain integers
//! here; the wide multiplications and divisions are done by `sp_runtime`.

use sp_runtime::traits::{CheckedDiv, CheckedMul};
use sp_runtime::{FixedPointNumber, FixedU128, Permill};
use vstd::prelude::*;

verus! {

/// Raw parts in one unit of a [`Rate`].
pub const ACCURACY: u128 = 1_000_000_000_000_000_000;

/// Parts in one unit of a [`Ratio`].
pub const RATIO_ACCURACY: u32 = 1_000_000;

/// Raw parts of a [`Rate`] in one part of a [`Ratio`].
pub const RATIO_SCALE: u128 = 1_000_000_000_000;

/// The raw product of two rates, rounded towards zero.
pub open spec fn mul_raw(a: int, b: int) -> int {
    a * b / (ACCURACY as int)
}

/// The raw quotient of two rates, rounded towards zero. Meant for `b != 0`.
pub open spec fn div_raw(a: int, b: int) -> int {
    a * (ACCURACY as int) / b
}

/// The parts per million of `p / q`, rounded towards zero; one whole where the
/// fraction is undefined or exceeds one.
pub open spec fn ratio_parts(p: int, q: int) -> int {
    if q == 0 || p > q {
        RATIO_ACCURACY as int
    } else {
        p * (RATIO_ACCURACY as int) / q
    }
}

/// The product of two rates, where it fits.
pub open spec fn checked_mul_spec(a: Rate, b: Rate) -> Option<Rate> {
    if mul_raw(a.inner as int, b.inner as int) <= u128::MAX {
        Some(Rate { inner: mul_raw(a.inner as int, b.inner as int) as u128 })
    } else {
        None
    }
}

/// The quotient of two rates, where it is defined and fits.
pub open spec fn checked_div_spec(a: Rate, b: Rate) -> Option<Rate> {
    if b.inner != 0 && div_raw(a.inner as int, b.inner as int) <= u128::MAX {
        Some(Rate { inner: div_raw(a.inner as int, b.inner as int) as u128 })
    } else {
        None
    }
}

/// The sum of two rates, where it fits.
pub open spec fn checked_add_spec(a: Rate, b: Rate) -> Option<Rate> {
    if a.inner + b.inner <= u128::MAX {
        Some(Rate { inner: (a.inner + b.inner) as u128 })
    } else {
        None
    }
}

/// The difference of two rates, where it is not negative.
pub open spec fn checked_sub_spec(a: Rate, b: Rate) -> Option<Rate> {
    if a.inner >= b.inner {
        Some(Rate { inner: (a.inner - b.inner) as u128 })
    } else {
        None
    }
}

/// Calls `CheckedMul::checked_mul` of `sp_runtime::FixedU128` on the numbers
/// with raw values `a` and `b`. It multiplies in 256 bits and divides by
/// `10^18` rounding down; the claim is that it returns exactly that quotient,
/// and `None` exactly when the quotient does not fit 128 bits.
#[verifier::external_body]
fn fixed_checked_mul(a: u128, b: u128) -> (r: Option<u128>)
    ensures
        mul_raw(a as int, b as int) <= u128::MAX ==> r == Some(mul_raw(a as int, b as int) as u128),
        mul_raw(a as int, b as int) > u128::MAX ==> r.is_none(),
{
    FixedU128::from_inner(a).checked_mul(&FixedU128::from_inner(b)).map(|v| v.into_inner())
}

/// Calls `CheckedDiv::checked_div` of `sp_runtime::FixedU128` on the numbers
/// with raw values `a` and `b`. The claim is that it returns `a * 10^18 / b`
/// rounded down, and `None` exactly when `b` is zero or the quotient does not
/// fit 128 bits.
#[verifier::external_body]
fn fixed_checked_div(a: u128, b: u128) -> (r: Option<u128>)
    ensures
        b != 0 && div_raw(a as int, b as int) <= u128::MAX ==> r == Some(
            div_raw(a as int, b as int) as u128,
        ),
        b == 0 || div_raw(a as int, b as int) > u128::MAX ==> r.is_none(),
{
    FixedU128::from_inner(a).checked_div(&FixedU128::from_inner(b)).map(|v| v.into_inner())
}

/// Calls `FixedPointNumber::checked_from_rational` of `sp_runtime::FixedU128`
/// with two `u128` operands. The claim is that it returns the raw value
/// `n * 10^18 / d` rounded down, and `None` exactly when `d` is zero or the
/// quotient does not fit 128 bits.
#[verifier::external_body]
fn fixed_checked_from_rational(n: u128, d: u128) -> (r: Option<u128>)
    ensures
        d != 0 && div_raw(n as int, d as int) <= u128::MAX ==> r == Some(
            div_raw(n as int, d as int) as u128,
        ),
        d == 0 || div_raw(n as int, d as int) > u128::MAX ==> r.is_none(),
{
    FixedU128::checked_from_rational(n, d).map(|v| v.into_inner())
}

/// Calls `Permill::from_rational` of `sp_runtime` with two `u128` operands and
/// hands out the parts. The claim is that the parts are `p * 10^6 / q` rounded
/// down, and one million where `q` is zero or `p` exceeds `q`.
#[verifier::external_body]
fn permill_from_rational(p: u128, q: u128) -> (r: u32)
    ensures
        r as int == ratio_parts(p as int, q as int),
{
    Permill::from_rational(p, q).deconstruct()
}

/// An unsigned fixed-point number with eighteen fractional digits.
///
/// The number stands for `inner / 10^18`.
#[derive(Clone, Copy, Debug, PartialEq, Eq, PartialOrd, Ord, Hash, Structural)]
pub struct Rate {
    pub inner: u128,
}

impl Rate {
    pub fn from_inner(inner: u128) -> (r: Rate)
        ensures
            r.inner == inner,
    {
        Rate { inner }
    }

    pub fn into_inner(self) -> (r: u128)
        ensures
            r == self.inner,
    {
        self.inner
    }

    pub fn zero() -> (r: Rate)
        ensures
            r.inner == 0,
    {
        Rate { inner: 0 }
    }

    pub fn one() -> (r: Rate)
        ensures
            r.inner == ACCURACY,
    {
        Rate { inner: ACCURACY }
    }

    pub fn max_value() -> (r: Rate)
        ensures
            r.inner == u128::MAX,
    {
        Rate { inner: u128::MAX }
    }

    pub fn min_value() -> (r: Rate)
        ensures
            r.inner == 0,
    {
        Rate { inner: 0 }
    }

    pub fn is_zero(&self) -> (r: bool)
        ensures
            r == (self.inner == 0),
    {
        self.inner == 0
    }

    /// The raw value of one unit.
    pub fn accuracy() -> (r: u128)
        ensures
            r == ACCURACY,
    {
        ACCURACY
    }

    /// The whole number `n`, or `None` where it is too large for a rate.
    pub fn checked_from_integer(n: u128) -> (r: Option<Rate>)
        ensures
            n * ACCURACY <= u128::MAX ==> r == Some(Rate { inner: (n * ACCURACY) as u128 }),
            n * ACCURACY > u128::MAX ==> r.is_none(),
    {
        match n.checked_mul(ACCURACY) {
            Some(inner) => Some(Rate { inner }),
            None => None,
        }
    }

    /// The fraction `ratio` as a rate; always exact.
    pub fn from_ratio(ratio: Ratio) -> (r: Rate)
        ensures
            r.inner == ratio.parts * RATIO_SCALE,
    {
        let parts: u128 = ratio.parts as u128;
        assert(parts * RATIO_SCALE <= u128::MAX) by {
            assert(parts <= u32::MAX);
        }
        Rate { inner: parts * RATIO_SCALE }
    }

    /// `n / d`, rounded towards zero.
    pub fn checked_from_rational(n: u128, d: u128) -> (r: Option<Rate>)
        ensures
            d != 0 && div_raw(n as int, d as int) <= u128::MAX ==> r == Some(
                Rate { inner: div_raw(n as int, d as int) as u128 },
            ),
            d == 0 || div_raw(n as int, d as int) > u128::MAX ==> r.is_none(),
    {
        match fixed_checked_from_rational(n, d) {
            Some(inner) => Some(Rate { inner }),
            None => None,
        }
    }

    pub fn checked_add(&self, other: &Rate) -> (r: Option<Rate>)
        ensures
            r == checked_add_spec(*self, *other),
            self.inner + other.inner <= u128::MAX ==> r == Some(
                Rate { inner: (self.inner + other.inner) as u128 },
            ),
            self.inner + other.inner > u128::MAX ==> r.is_none(),
    {
        match self.inner.checked_add(other.inner) {
            Some(inner) => Some(Rate { inner }),
            None => None,
        }
    }

    pub fn checked_sub(&self, other: &Rate) -> (r: Option<Rate>)
        ensures
            r == checked_sub_spec(*self, *other),
            self.inner >= other.inner ==> r == Some(
                Rate { inner: (self.inner - other.inner) as u128 },
            ),
            self.inner < other.inner ==> r.is_none(),
    {
        match self.inner.checked_sub(other.inner) {
            Some(inner) => Some(Rate { inner }),
            None => None,
        }
    }

    /// The product, rounded towards zero.
    pub fn checked_mul(&self, other: &Rate) -> (r: Option<Rate>)
        ensures
            r == checked_mul_spec(*self, *other),
            mul_raw(self.inner as int, other.inner as int) <= u128::MAX ==> r == Some(
                Rate { inner: mul_raw(self.inner as int, other.inner as int) as u128 },
            ),
            mul_raw(self.inner as int, other.inner as int) > u128::MAX ==> r.is_none(),
    {
        match fixed_checked_mul(self.inner, other.inner) {
            Some(inner) => Some(Rate { inner }),
            None => None,
        }
    }

    /// The quotient, rounded towards zero.
    pub fn checked_div(&self, other: &Rate) -> (r: Option<Rate>)
        ensures
            r == checked_div_spec(*self, *other),
            other.inner != 0 && div_raw(self.inner as int, other.inner as int) <= u128::MAX ==> r
                == Some(Rate { inner: div_raw(self.inner as int, other.inner as int) as u128 }),
            other.inner == 0 || div_raw(self.inner as int, other.inner as int) > u128::MAX
                ==> r.is_none(),
    {
        match fixed_checked_div(self.inner, other.inner) {
            Some(inner) => Some(Rate { inner }),
            None => None,
        }
    }
}

/// A fixed-point number with a sign: `magnitude`, negated where `negative`.
#[derive(Clone, Copy, Debug, PartialEq, Eq, Structural)]
pub struct SignedRate {
    pub negative: bool,
    pub magnitude: Rate,
}

/// A fraction of one, in parts per million.
///
/// Every constructor keeps `parts` at or below one million.
#[derive(Clone, Copy, Debug, PartialEq, Eq, PartialOrd, Ord, Hash, Structural)]
pub struct Ratio {
    pub parts: u32,
}

impl Ratio {
    /// `parts` millionths, at most one whole.
    pub fn from_parts(parts: u32) -> (r: Ratio)
        ensures
            r.parts == if parts > RATIO_ACCURACY {
                RATIO_ACCURACY
            } else {
                parts
            },
    {
        if parts > RATIO_ACCURACY {
            Ratio { parts: RATIO_ACCURACY }
        } else {
            Ratio { parts }
        }
    }

    /// `x` hundredths, at most one whole.
    pub fn from_percent(x: u32) -> (r: Ratio)
        ensures
            r.parts == if x > 100 {
                RATIO_ACCURACY as int
            } else {
                x * 10_000
            },
    {
        if x > 100 {
            Ratio { parts: RATIO_ACCURACY }
        } else {
            Ratio { parts: x * 10_000 }
        }
    }

    pub fn zero() -> (r: Ratio)
        ensures
            r.parts == 0,
    {
        Ratio { parts: 0 }
    }

    pub fn one() -> (r: Ratio)
        ensures
            r.parts == RATIO_ACCURACY,
    {
        Ratio { parts: RATIO_ACCURACY }
    }

    pub fn deconstruct(self) -> (r: u32)
        ensures
            r == self.parts,
    {
        self.parts
    }

    /// The fraction `p / q` rounded towards zero; one whole where `q` is zero
    /// or `p` exceeds `q`.
    pub fn from_rational(p: u128, q: u128) -> (r: Ratio)
        ensures
            r.parts as int == ratio_parts(p as int, q as int),
    {
        Ratio { parts: permill_from_rational(p, q) }
    }

    pub fn checked_sub(&self, other: &Ratio) -> (r: Option<Ratio>)
        ensures
            self.parts >= other.parts ==> r == Some(
                Ratio::spec_from_parts((self.parts - other.parts) as u32),
            ),
            self.parts < other.parts ==> r.is_none(),
    {
        match self.parts.checked_sub(other.parts) {
            Some(parts) => Some(Ratio::from_parts(parts)),
            None => None,
        }
    }

    pub open spec fn spec_from_parts(parts: u32) -> Ratio {
        Ratio { parts: if parts > RATIO_ACCURACY { RATIO_ACCURACY } else { parts } }
    }
}

} // verus!
