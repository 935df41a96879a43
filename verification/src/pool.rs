//! The lending pool of one asset: balances, rates and accrual indexes.

use crate::borrow_repay::UserBorrow;
use crate::fixed::{
    checked_add_spec, checked_div_spec, checked_mul_spec, div_raw, mul_raw, ratio_parts, Rate,
    Ratio, ACCURACY, RATIO_ACCURACY, RATIO_SCALE,
};
use crate::interest_rate::InterestRateModel;
use crate::types::{AssetId, Balance, Error, LendingPoolId, Timestamp, SECONDS_PER_YEAR};
use vstd::prelude::*;

verus! {

/// Raw value below which a term of the exponential series ends the series.
pub const SERIES_EPSILON: u128 = 1_000_000;

/// The number of terms after which the exponential series ends at the latest.
pub const SERIES_TERMS: u128 = 20;

/// Raw value of the number of seconds in a year.
pub const YEAR: u128 = 31_536_000_000_000_000_000_000_000;

/// `Some` as `Ok`, and `None` as the overflow error.
pub open spec fn or_overflow(value: Option<Rate>) -> Result<Rate, Error> {
    match value {
        Some(v) => Ok(v),
        None => Err(Error::OverflowError),
    }
}

/// The raw value of an amount, where an amount is read as a rate, or the
/// overflow error.
pub open spec fn amount_of(value: Option<Rate>) -> Result<Balance, Error> {
    match value {
        Some(v) => Ok(v.inner),
        None => Err(Error::OverflowError),
    }
}

/// The fraction `ratio` as a rate.
pub open spec fn rate_of(ratio: Ratio) -> Rate {
    Rate { inner: (ratio.parts * RATIO_SCALE) as u128 }
}

/// The rest of the exponential series of `x` from its `n`-th term on, where
/// the terms so far add up to `sum` and the last of them is `term`.
///
/// Each term is the one before, times `x`, divided by its number. The series
/// ends with the first term below [`SERIES_EPSILON`], and after
/// [`SERIES_TERMS`] terms at the latest.
pub open spec fn exp_series(x: Rate, term: Rate, sum: Rate, n: nat) -> Result<Rate, Error>
    decreases 21 - n,
{
    if n > SERIES_TERMS {
        Ok(sum)
    } else {
        match checked_mul_spec(term, x) {
            None => Err(Error::OverflowError),
            Some(product) => match checked_div_spec(product, Rate { inner: (n * ACCURACY) as u128 }) {
                None => Err(Error::OverflowError),
                Some(next) => match checked_add_spec(sum, next) {
                    None => Err(Error::OverflowError),
                    Some(total) => if next.inner < SERIES_EPSILON {
                        Ok(total)
                    } else {
                        exp_series(x, next, total, n + 1)
                    },
                },
            },
        }
    }
}

/// The exponential of `x` by its truncated series.
pub open spec fn exp_spec(x: Rate) -> Result<Rate, Error> {
    exp_series(x, Rate { inner: ACCURACY }, Rate { inner: ACCURACY }, 1)
}

/// Definition of the lending pool of one asset.
#[derive(Clone, Copy, Debug, PartialEq, Eq, Structural)]
pub struct LendingPool {
    /// The lending pool id, which is the id of its share token.
    pub id: LendingPoolId,
    /// The asset that the pool lends.
    pub lend_token_id: AssetId,
    /// The liquidity that is not lent out.
    pub reserve_balance: Balance,
    /// The principal that is lent out, without interest.
    pub borrowed_balance: Balance,
    /// Is the pool active or in pending state?
    pub activated: bool,
    pub interest_model: InterestRateModel,
    /// The share of the interest that does not go to the depositors.
    pub reserve_factor: Ratio,
    /// The largest loan per unit of collateral value.
    pub collateral_factor: Ratio,
    pub liquidation_threshold: Ratio,
    /// The timestamp of the last calculation of accrued interest.
    pub last_accrued_interest_at: Timestamp,
    /// Accumulator of the interest owed by borrowers.
    pub borrow_index: Rate,
    /// Accumulator of the interest earned by depositors.
    pub supply_index: Rate,
}

impl LendingPool {
    /// A new pool in pending state with the default parameters and both
    /// indexes at one.
    pub open spec fn spec_from(
        id: LendingPoolId,
        lend_token_id: AssetId,
        balance: Balance,
        now: Timestamp,
    ) -> LendingPool {
        LendingPool {
            id,
            lend_token_id,
            reserve_balance: balance,
            borrowed_balance: 0,
            activated: false,
            interest_model: InterestRateModel::spec_default(),
            reserve_factor: Ratio { parts: 100_000 },
            collateral_factor: Ratio { parts: 500_000 },
            liquidation_threshold: Ratio { parts: 800_000 },
            last_accrued_interest_at: now,
            borrow_index: Rate { inner: ACCURACY },
            supply_index: Rate { inner: ACCURACY },
        }
    }

    /// Whether the indexes are as those of every pool are from its start:
    /// both at least one.
    pub open spec fn indexes_valid(self) -> bool {
        self.borrow_index.inner >= ACCURACY && self.supply_index.inner >= ACCURACY
    }

    /// Creates a pool with the default parameters: reserve factor 10%,
    /// collateral factor 50%, liquidation threshold 80%, the default curve.
    pub fn from(id: LendingPoolId, lend_token_id: AssetId, balance: Balance, now: Timestamp) -> (r:
        Result<LendingPool, Error>)
        ensures
            r == Ok::<LendingPool, Error>(LendingPool::spec_from(id, lend_token_id, balance, now)),
    {
        let mut pool = LendingPool {
            id,
            lend_token_id,
            reserve_balance: balance,
            borrowed_balance: 0,
            activated: false,
            interest_model: InterestRateModel::default(),
            reserve_factor: Ratio::from_percent(10),
            collateral_factor: Ratio::from_percent(50),
            liquidation_threshold: Ratio::from_percent(80),
            last_accrued_interest_at: now,
            borrow_index: Rate::one(),
            supply_index: Rate::one(),
        };
        match pool.update_indexes(now) {
            Ok(()) => Ok(pool),
            Err(e) => Err(e),
        }
    }

    /// The share of the pool that is lent out:
    /// `borrowed_balance / (borrowed_balance + reserve_balance)`, in parts per
    /// million rounded down. It is zero where nothing is lent, and one whole
    /// where all is lent and nothing is left.
    pub open spec fn utilisation_spec(self) -> Result<Ratio, Error> {
        if self.borrowed_balance == 0 {
            Ok(Ratio { parts: 0 })
        } else if self.borrowed_balance + self.reserve_balance > u128::MAX {
            Err(Error::OverflowError)
        } else {
            Ok(
                Ratio {
                    parts: ratio_parts(
                        self.borrowed_balance as int,
                        self.borrowed_balance + self.reserve_balance,
                    ) as u32,
                },
            )
        }
    }

    /// Calculates the utilisation ratio of the pool.
    pub fn utilisation_ratio(&self) -> (r: Result<Ratio, Error>)
        ensures
            r == self.utilisation_spec(),
            r matches Ok(u) ==> u.parts <= RATIO_ACCURACY,
            self.borrowed_balance == 0 ==> r == Ok::<Ratio, Error>(Ratio { parts: 0 }),
            self.borrowed_balance > 0 && self.reserve_balance == 0 ==> r == Ok::<Ratio, Error>(
                Ratio { parts: RATIO_ACCURACY },
            ),
    {
        if self.borrowed_balance == 0 {
            return Ok(Ratio::zero());
        }
        let denominator = match self.borrowed_balance.checked_add(self.reserve_balance) {
            Some(v) => v,
            None => {
                return Err(Error::OverflowError);
            },
        };
        proof {
            lemma_ratio_parts_bound(self.borrowed_balance as int, denominator as int);
            lemma_ratio_parts_whole(self.borrowed_balance as int);
        }
        Ok(Ratio::from_rational(self.borrowed_balance, denominator))
    }

    /// The yearly borrow rate: zero while nothing is lent, else the rate of
    /// the curve at the utilisation, which is `y1` for a pool without
    /// reserve.
    pub open spec fn borrow_rate_spec(self) -> Result<Rate, Error> {
        if self.borrowed_balance == 0 {
            Ok(Rate { inner: 0 })
        } else {
            match self.utilisation_spec() {
                Err(e) => Err(e),
                Ok(u) => match self.interest_model.cosine_interest_spec(rate_of(u)) {
                    Ok(rate) => Ok(rate),
                    Err(_) => Err(Error::OverflowError),
                },
            }
        }
    }

    /// Calculates the yearly rate that borrowers pay.
    pub fn borrow_interest_rate(&self) -> (r: Result<Rate, Error>)
        ensures
            r == self.borrow_rate_spec(),
            self.borrowed_balance == 0 ==> r == Ok::<Rate, Error>(Rate { inner: 0 }),
            self.borrowed_balance > 0 && self.reserve_balance == 0 ==> r == Ok::<Rate, Error>(
                self.interest_model.y1,
            ),
    {
        if self.borrowed_balance == 0 {
            return Ok(Rate::zero());
        }
        let utilisation_ratio = match self.utilisation_ratio() {
            Ok(u) => u,
            Err(e) => {
                return Err(e);
            },
        };
        match self.interest_model.calculate_cosine_interest(Rate::from_ratio(utilisation_ratio)) {
            Ok(rate) => Ok(rate),
            Err(_) => Err(Error::OverflowError),
        }
    }

    /// The yearly supply rate:
    /// `borrow_rate * utilisation * (1 - reserve_factor)`.
    pub open spec fn supply_rate_spec(self) -> Result<Rate, Error> {
        match self.borrow_rate_spec() {
            Err(e) => Err(e),
            Ok(borrow_rate) => match self.utilisation_spec() {
                Err(e) => Err(e),
                Ok(u) => if self.reserve_factor.parts > RATIO_ACCURACY {
                    Err(Error::OverflowError)
                } else {
                    match checked_mul_spec(borrow_rate, rate_of(u)) {
                        None => Err(Error::OverflowError),
                        Some(used) => or_overflow(
                            checked_mul_spec(
                                used,
                                rate_of(
                                    Ratio {
                                        parts: (RATIO_ACCURACY - self.reserve_factor.parts) as u32,
                                    },
                                ),
                            ),
                        ),
                    }
                },
            },
        }
    }

    /// Calculates the yearly rate that depositors earn.
    pub fn supply_interest_rate(&self) -> (r: Result<Rate, Error>)
        ensures
            r == self.supply_rate_spec(),
    {
        let borrow_rate = match self.borrow_interest_rate() {
            Ok(v) => v,
            Err(e) => {
                return Err(e);
            },
        };
        let utilisation_ratio = match self.utilisation_ratio() {
            Ok(v) => v,
            Err(e) => {
                return Err(e);
            },
        };
        let reserved = match Ratio::from_percent(100).checked_sub(&self.reserve_factor) {
            Some(v) => v,
            None => {
                return Err(Error::OverflowError);
            },
        };
        let used = match borrow_rate.checked_mul(&Rate::from_ratio(utilisation_ratio)) {
            Some(v) => v,
            None => {
                return Err(Error::OverflowError);
            },
        };
        match used.checked_mul(&Rate::from_ratio(reserved)) {
            Some(v) => Ok(v),
            None => Err(Error::OverflowError),
        }
    }

    /// Whether the pool holds no reserve.
    pub fn is_empty(&self) -> (r: bool)
        ensures
            r == (self.reserve_balance == 0),
    {
        self.reserve_balance == 0
    }

    /// Whether the pool is active.
    pub fn is_active(&self) -> (r: bool)
        ensures
            r == self.activated,
    {
        self.activated
    }

    /// `deposit / supply_index`.
    pub open spec fn scaled_supply_spec(self, deposit: Balance) -> Result<Balance, Error> {
        amount_of(checked_div_spec(Rate { inner: deposit }, self.supply_index))
    }

    /// Calculates the scaled balance of a deposit as
    /// `deposit / supply_index`.
    pub fn scaled_supply_balance(&self, deposit: Balance) -> (r: Result<Balance, Error>)
        ensures
            r == self.scaled_supply_spec(deposit),
    {
        match Rate::from_inner(deposit).checked_div(&self.supply_index) {
            Some(v) => Ok(v.into_inner()),
            None => Err(Error::OverflowError),
        }
    }

    /// `borrowed_balance / borrow_index`.
    pub open spec fn scaled_borrow_spec(self, borrowed_balance: Balance) -> Result<Balance, Error> {
        amount_of(checked_div_spec(Rate { inner: borrowed_balance }, self.borrow_index))
    }

    /// Calculates the scaled balance of a loan as
    /// `borrowed_balance / borrow_index`.
    pub fn scaled_borrow_balance(&self, borrowed_balance: Balance) -> (r: Result<Balance, Error>)
        ensures
            r == self.scaled_borrow_spec(borrowed_balance),
    {
        match Rate::from_inner(borrowed_balance).checked_div(&self.borrow_index) {
            Some(v) => Ok(v.into_inner()),
            None => Err(Error::OverflowError),
        }
    }

    /// The factor by which the supply index grows until `now`:
    /// `1 + supply_rate * (now - last_accrued_interest_at) / SECONDS_PER_YEAR`.
    pub open spec fn linear_interest_spec(self, now: Timestamp) -> Result<Rate, Error> {
        if now < self.last_accrued_interest_at {
            Err(Error::OverflowError)
        } else {
            match self.supply_rate_spec() {
                Err(e) => Err(e),
                Ok(rate) => match checked_mul_spec(
                    rate,
                    Rate { inner: ((now - self.last_accrued_interest_at) * ACCURACY) as u128 },
                ) {
                    None => Err(Error::OverflowError),
                    Some(factor) => match checked_div_spec(factor, Rate { inner: YEAR }) {
                        None => Err(Error::OverflowError),
                        Some(part) => or_overflow(checked_add_spec(part, Rate { inner: ACCURACY })),
                    },
                },
            }
        }
    }

    /// Calculates simple interest over the time since the last accrual.
    pub fn calculate_linear_interest(&self, now: Timestamp) -> (r: Result<Rate, Error>)
        ensures
            r == self.linear_interest_spec(now),
            r matches Ok(v) ==> v.inner >= ACCURACY,
    {
        let dur: u64 = match now.checked_sub(self.last_accrued_interest_at) {
            Some(v) => v,
            None => {
                return Err(Error::OverflowError);
            },
        };
        let rate = match self.supply_interest_rate() {
            Ok(v) => v,
            Err(e) => {
                return Err(e);
            },
        };
        let seconds = Rate::from_inner(dur as u128 * ACCURACY);
        let rate_factor = match rate.checked_mul(&seconds) {
            Some(v) => v,
            None => {
                return Err(Error::OverflowError);
            },
        };
        let part = match rate_factor.checked_div(&Rate::from_inner(YEAR)) {
            Some(v) => v,
            None => {
                return Err(Error::OverflowError);
            },
        };
        match part.checked_add(&Rate::one()) {
            Some(v) => Ok(v),
            None => Err(Error::OverflowError),
        }
    }

    /// The exponential of `x` by its series, cut off after twenty terms or at
    /// the first term below `10^-12`.
    pub fn exp_fixed_u128(x: Rate) -> (r: Result<Rate, Error>)
        ensures
            r == exp_spec(x),
            r matches Ok(v) ==> v.inner >= ACCURACY,
    {
        let mut sum = Rate::one();
        let mut term = Rate::one();
        let mut n: u128 = 1;
        while n <= SERIES_TERMS
            invariant
                1 <= n <= 21,
                exp_series(x, term, sum, n as nat) == exp_spec(x),
                sum.inner >= ACCURACY,
            decreases 21 - n,
        {
            let product = match term.checked_mul(&x) {
                Some(v) => v,
                None => {
                    return Err(Error::OverflowError);
                },
            };
            let next = match product.checked_div(&Rate::from_inner(n * ACCURACY)) {
                Some(v) => v,
                None => {
                    return Err(Error::OverflowError);
                },
            };
            let total = match sum.checked_add(&next) {
                Some(v) => v,
                None => {
                    return Err(Error::OverflowError);
                },
            };
            term = next;
            sum = total;
            if term.inner < SERIES_EPSILON {
                return Ok(sum);
            }
            n += 1;
        }
        Ok(sum)
    }

    /// The factor by which the borrow index grows until `now`: the
    /// exponential of
    /// `borrow_rate / SECONDS_PER_YEAR * (now - last_accrued_interest_at)`.
    pub open spec fn compounded_interest_spec(self, now: Timestamp) -> Result<Rate, Error> {
        match self.borrow_rate_spec() {
            Err(e) => Err(e),
            Ok(yearly) => match checked_div_spec(yearly, Rate { inner: YEAR }) {
                None => Err(Error::OverflowError),
                Some(rate) => if now < self.last_accrued_interest_at {
                    Err(Error::OverflowError)
                } else {
                    match checked_mul_spec(
                        rate,
                        Rate { inner: ((now - self.last_accrued_interest_at) * ACCURACY) as u128 },
                    ) {
                        None => Err(Error::OverflowError),
                        Some(x) => exp_spec(x),
                    }
                },
            },
        }
    }

    /// Calculates interest that compounds every second over the time since
    /// the last accrual.
    pub fn calculate_compunded_interest(&self, now: Timestamp) -> (r: Result<Rate, Error>)
        ensures
            r == self.compounded_interest_spec(now),
            r matches Ok(v) ==> v.inner >= ACCURACY,
    {
        let yearly = match self.borrow_interest_rate() {
            Ok(v) => v,
            Err(e) => {
                return Err(e);
            },
        };
        let rate = match yearly.checked_div(&Rate::from_inner(YEAR)) {
            Some(v) => v,
            None => {
                return Err(Error::OverflowError);
            },
        };
        let t: u64 = match now.checked_sub(self.last_accrued_interest_at) {
            Some(v) => v,
            None => {
                return Err(Error::OverflowError);
            },
        };
        let x = match rate.checked_mul(&Rate::from_inner(t as u128 * ACCURACY)) {
            Some(v) => v,
            None => {
                return Err(Error::OverflowError);
            },
        };
        LendingPool::exp_fixed_u128(x)
    }

    /// The supply index at `now`.
    pub open spec fn next_supply_index(self, now: Timestamp) -> Result<Rate, Error> {
        match self.linear_interest_spec(now) {
            Err(e) => Err(e),
            Ok(incr) => or_overflow(checked_mul_spec(self.supply_index, incr)),
        }
    }

    /// The borrow index at `now`.
    pub open spec fn next_borrow_index(self, now: Timestamp) -> Result<Rate, Error> {
        match self.compounded_interest_spec(now) {
            Err(e) => Err(e),
            Ok(incr) => or_overflow(checked_mul_spec(self.borrow_index, incr)),
        }
    }

    /// The pool with its interest accrued until `now`: unchanged where `now`
    /// is not after the last accrual; else both indexes multiplied by their
    /// factors, the supply index first, and the time of accrual set to `now`.
    pub open spec fn accrued(self, now: Timestamp) -> Result<LendingPool, Error> {
        if self.last_accrued_interest_at < now {
            match self.next_supply_index(now) {
                Err(e) => Err(e),
                Ok(supply_index) => match self.next_borrow_index(now) {
                    Err(e) => Err(e),
                    Ok(borrow_index) => Ok(
                        LendingPool {
                            supply_index,
                            borrow_index,
                            last_accrued_interest_at: now,
                            ..self
                        },
                    ),
                },
            }
        } else {
            Ok(self)
        }
    }

    /// Multiplies the supply index by its factor of growth until `now`.
    fn update_supply_index(&mut self, now: Timestamp) -> (r: Result<(), Error>)
        ensures
            match old(self).next_supply_index(now) {
                Ok(supply_index) => r == Ok::<(), Error>(()) && *final(self) == (LendingPool {
                    supply_index,
                    ..*old(self)
                }),
                Err(e) => r == Err::<(), Error>(e) && *final(self) == *old(self),
            },
            final(self).supply_index.inner >= old(self).supply_index.inner,
    {
        let incr = self.calculate_linear_interest(now)?;
        proof {
            lemma_mul_grows(self.supply_index.inner as int, incr.inner as int);
        }
        let new_index = match self.supply_index.checked_mul(&incr) {
            Some(v) => v,
            None => {
                return Err(Error::OverflowError);
            },
        };
        self.supply_index = new_index;
        Ok(())
    }

    /// Multiplies the borrow index by its factor of growth until `now`.
    fn update_borrow_index(&mut self, now: Timestamp) -> (r: Result<(), Error>)
        ensures
            match old(self).next_borrow_index(now) {
                Ok(borrow_index) => r == Ok::<(), Error>(()) && *final(self) == (LendingPool {
                    borrow_index,
                    ..*old(self)
                }),
                Err(e) => r == Err::<(), Error>(e) && *final(self) == *old(self),
            },
            final(self).borrow_index.inner >= old(self).borrow_index.inner,
    {
        let incr = self.calculate_compunded_interest(now)?;
        proof {
            lemma_mul_grows(self.borrow_index.inner as int, incr.inner as int);
        }
        let new_index = match self.borrow_index.checked_mul(&incr) {
            Some(v) => v,
            None => {
                return Err(Error::OverflowError);
            },
        };
        self.borrow_index = new_index;
        Ok(())
    }

    /// Accrues the interest until `now`: the supply index first, then the
    /// borrow index. On an error the pool is unchanged. Neither index ever
    /// falls.
    pub fn update_indexes(&mut self, now: Timestamp) -> (r: Result<(), Error>)
        ensures
            match old(self).accrued(now) {
                Ok(pool) => r == Ok::<(), Error>(()) && *final(self) == pool,
                Err(e) => r == Err::<(), Error>(e) && *final(self) == *old(self),
            },
            final(self).supply_index.inner >= old(self).supply_index.inner,
            final(self).borrow_index.inner >= old(self).borrow_index.inner,
            final(self).last_accrued_interest_at >= old(self).last_accrued_interest_at,
            old(self).indexes_valid() ==> final(self).indexes_valid(),
    {
        if self.last_accrued_interest_at < now {
            let before = *self;
            self.update_supply_index(now)?;
            match self.update_borrow_index(now) {
                Ok(()) => {},
                Err(e) => {
                    *self = before;
                    return Err(e);
                },
            }
            self.last_accrued_interest_at = now;
        }
        Ok(())
    }

    /// `balance * supply_index`.
    pub open spec fn accrued_deposit_spec(self, balance: Balance) -> Result<Balance, Error> {
        amount_of(checked_mul_spec(Rate { inner: balance }, self.supply_index))
    }

    /// Calculates the worth of a scaled deposit as `balance * supply_index`.
    pub fn accrued_deposit(&self, balance: Balance) -> (r: Result<Balance, Error>)
        ensures
            r == self.accrued_deposit_spec(balance),
    {
        match Rate::from_inner(balance).checked_mul(&self.supply_index) {
            Some(v) => Ok(v.into_inner()),
            None => Err(Error::OverflowError),
        }
    }

    /// The pool after `balance` has moved from the reserve to the loans.
    pub open spec fn after_borrow(self, balance: Balance) -> LendingPool {
        LendingPool {
            reserve_balance: (self.reserve_balance - balance) as u128,
            borrowed_balance: (self.borrowed_balance + balance) as u128,
            ..self
        }
    }

    /// Moves `balance` from the reserve to the loans. Fails, and changes
    /// nothing, where the reserve is smaller or the loans overflow.
    pub fn move_asset_on_borrow(&mut self, balance: Balance) -> (r: Result<(), Error>)
        ensures
            balance <= old(self).reserve_balance && old(self).borrowed_balance + balance
                <= u128::MAX ==> r == Ok::<(), Error>(()) && *final(self) == old(self).after_borrow(balance),
            balance > old(self).reserve_balance || old(self).borrowed_balance + balance
                > u128::MAX ==> r == Err::<(), Error>(Error::OverflowError) && *final(self) == *old(self),
    {
        let reserve = match self.reserve_balance.checked_sub(balance) {
            Some(v) => v,
            None => {
                return Err(Error::OverflowError);
            },
        };
        let borrowed = match self.borrowed_balance.checked_add(balance) {
            Some(v) => v,
            None => {
                return Err(Error::OverflowError);
            },
        };
        self.reserve_balance = reserve;
        self.borrowed_balance = borrowed;
        Ok(())
    }

    /// The pool after a repayment of `pay` that takes `principal_reduction`
    /// off the loans.
    pub open spec fn after_repay(self, pay: Balance, principal_reduction: Balance) -> LendingPool {
        LendingPool {
            borrowed_balance: (self.borrowed_balance - principal_reduction) as u128,
            reserve_balance: (self.reserve_balance + pay) as u128,
            ..self
        }
    }

    /// Takes `principal_reduction` off the loans and adds `pay` to the
    /// reserve. Fails, and changes nothing, where the loans are smaller or
    /// the reserve overflows.
    pub fn move_asset_on_repay(&mut self, pay: Balance, principal_reduction: Balance) -> (r:
        Result<(), Error>)
        ensures
            principal_reduction <= old(self).borrowed_balance && old(self).reserve_balance + pay
                <= u128::MAX ==> r == Ok::<(), Error>(()) && *final(self) == old(self).after_repay(
                pay,
                principal_reduction,
            ),
            principal_reduction > old(self).borrowed_balance || old(self).reserve_balance + pay
                > u128::MAX ==> r == Err::<(), Error>(Error::OverflowError) && *final(self) == *old(self),
    {
        let borrowed = match self.borrowed_balance.checked_sub(principal_reduction) {
            Some(v) => v,
            None => {
                return Err(Error::OverflowError);
            },
        };
        let reserve = match self.reserve_balance.checked_add(pay) {
            Some(v) => v,
            None => {
                return Err(Error::OverflowError);
            },
        };
        self.borrowed_balance = borrowed;
        self.reserve_balance = reserve;
        Ok(())
    }

    /// `collateral_balance * collateral_factor`.
    pub open spec fn max_borrow_spec(self, collateral_balance: Balance) -> Result<Balance, Error> {
        amount_of(
            checked_mul_spec(Rate { inner: collateral_balance }, rate_of(self.collateral_factor)),
        )
    }

    /// Calculates the largest loan against `collateral_balance` as
    /// `collateral_balance * collateral_factor`.
    pub fn max_borrow_amount(&self, collateral_balance: Balance) -> (r: Result<Balance, Error>)
        ensures
            r == self.max_borrow_spec(collateral_balance),
    {
        let factor = Rate::from_ratio(self.collateral_factor);
        match Rate::from_inner(collateral_balance).checked_mul(&factor) {
            Some(v) => Ok(v.into_inner()),
            None => Err(Error::OverflowError),
        }
    }

    /// What is owed on `loan`, interest included, in whole units:
    /// `borrowed_balance * (borrow_index / borrow_index_at_borrow_time)`.
    pub open spec fn repayable_spec(self, loan: UserBorrow) -> Result<Balance, Error> {
        match checked_div_spec(self.borrow_index, loan.borrow_index_at_borrow_time) {
            None => Err(Error::OverflowError),
            Some(index_ratio) => scale_amount(index_ratio, loan.borrowed_balance),
        }
    }

    /// Calculates the repayable amount of a loan including accrued interest.
    pub fn repayable_amount(&self, loan: &UserBorrow) -> (r: Result<Balance, Error>)
        ensures
            r == self.repayable_spec(*loan),
    {
        let index_ratio = match self.borrow_index.checked_div(&loan.borrow_index_at_borrow_time) {
            Some(v) => v,
            None => {
                return Err(Error::OverflowError);
            },
        };
        multiply_amount(index_ratio, loan.borrowed_balance)
    }
}

/// `ratio * amount` in whole units, rounded towards zero.
///
/// The amount is first read as a whole number on the scale of rates, so it
/// must stay below `u128::MAX / 10^18`; so must the product.
pub open spec fn scale_amount(ratio: Rate, amount: Balance) -> Result<Balance, Error> {
    if amount * ACCURACY > u128::MAX {
        Err(Error::OverflowError)
    } else {
        match checked_mul_spec(ratio, Rate { inner: (amount * ACCURACY) as u128 }) {
            None => Err(Error::OverflowError),
            Some(product) => Ok(product.inner / ACCURACY),
        }
    }
}

/// Multiplies a whole amount by a ratio and rounds the product towards zero.
pub fn multiply_amount(ratio: Rate, amount: Balance) -> (r: Result<Balance, Error>)
    ensures
        r == scale_amount(ratio, amount),
{
    let whole = match Rate::checked_from_integer(amount) {
        Some(v) => v,
        None => {
            return Err(Error::OverflowError);
        },
    };
    match ratio.checked_mul(&whole) {
        Some(v) => Ok(v.into_inner() / ACCURACY),
        None => Err(Error::OverflowError),
    }
}

/// A product with a factor of one or more is not below the other factor.
pub proof fn lemma_mul_grows(a: int, b: int)
    requires
        0 <= a,
        ACCURACY <= b,
    ensures
        mul_raw(a, b) >= a,
{
    assert(a * b >= a * 1_000_000_000_000_000_000) by (nonlinear_arith)
        requires
            0 <= a,
            1_000_000_000_000_000_000 <= b,
    ;
    assert(a * 1_000_000_000_000_000_000 / 1_000_000_000_000_000_000 == a) by (nonlinear_arith);
    assert(a * b / 1_000_000_000_000_000_000 >= a * 1_000_000_000_000_000_000
        / 1_000_000_000_000_000_000) by (nonlinear_arith)
        requires
            a * b >= a * 1_000_000_000_000_000_000,
    ;
}

/// A fraction of one has at most a million parts.
pub proof fn lemma_ratio_parts_bound(p: int, q: int)
    requires
        0 <= p,
        0 <= q,
    ensures
        0 <= ratio_parts(p, q) <= RATIO_ACCURACY,
{
    if q != 0 && p <= q {
        assert(0 <= p * 1_000_000 / q <= 1_000_000) by (nonlinear_arith)
            requires
                0 <= p <= q,
                0 < q,
        ;
    }
}

/// All of a positive amount is one whole of it.
pub proof fn lemma_ratio_parts_whole(p: int)
    requires
        0 < p,
    ensures
        ratio_parts(p, p) == RATIO_ACCURACY,
{
    assert(p * 1_000_000 / p == 1_000_000) by (nonlinear_arith)
        requires
            0 < p,
    ;
}

/// The exponential series is not below the sum that it starts from.
pub proof fn lemma_exp_series_grows(x: Rate, term: Rate, sum: Rate, n: nat)
    ensures
        exp_series(x, term, sum, n) matches Ok(v) ==> v.inner >= sum.inner,
    decreases 21 - n,
{
    if n <= SERIES_TERMS {
        match checked_mul_spec(term, x) {
            None => {},
            Some(product) => match checked_div_spec(product, Rate { inner: (n * ACCURACY) as u128 }) {
                None => {},
                Some(next) => match checked_add_spec(sum, next) {
                    None => {},
                    Some(total) => {
                        if next.inner >= SERIES_EPSILON {
                            lemma_exp_series_grows(x, next, total, n + 1);
                        }
                    },
                },
            },
        }
    }
}

/// Accrual never lowers an index and never turns the clock back, and it
/// leaves everything else of the pool as it was.
pub proof fn lemma_accrued_keeps_indexes(pool: LendingPool, now: Timestamp)
    ensures
        pool.accrued(now) matches Ok(next) ==> next.supply_index.inner >= pool.supply_index.inner
            && next.borrow_index.inner >= pool.borrow_index.inner && next.last_accrued_interest_at
            >= pool.last_accrued_interest_at && next == (LendingPool {
            supply_index: next.supply_index,
            borrow_index: next.borrow_index,
            last_accrued_interest_at: next.last_accrued_interest_at,
            ..pool
        }),
{
    if pool.last_accrued_interest_at < now {
        match pool.linear_interest_spec(now) {
            Ok(incr) => {
                lemma_mul_grows(pool.supply_index.inner as int, incr.inner as int);
            },
            Err(_) => {},
        }
        match pool.compounded_interest_spec(now) {
            Ok(incr) => {
                let yearly = pool.borrow_rate_spec().unwrap();
                let rate = checked_div_spec(yearly, Rate { inner: YEAR }).unwrap();
                let x = checked_mul_spec(
                    rate,
                    Rate { inner: ((now - pool.last_accrued_interest_at) * ACCURACY) as u128 },
                ).unwrap();
                lemma_exp_series_grows(x, Rate { inner: ACCURACY }, Rate { inner: ACCURACY }, 1);
                lemma_mul_grows(pool.borrow_index.inner as int, incr.inner as int);
            },
            Err(_) => {},
        }
    }
}

} // verus!
