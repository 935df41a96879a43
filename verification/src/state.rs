//! The mathematical model of the ledger and of its operations.
//!
//! A [`State`] is what a ledger holds, as sequences in the order of
//! insertion. Every operation of the ledger is a function from a state to a
//! [`Step`]: the next state and the token calls that go with it.

use crate::borrow_repay::UserBorrow;
use crate::fixed::{
    checked_div_spec, checked_mul_spec, checked_sub_spec, div_raw, Rate, Ratio, ACCURACY,
    RATIO_ACCURACY,
};
use crate::pallet::{LoanKey, SupplyIndex};
use crate::pool::{amount_of, rate_of, scale_amount, LendingPool};
use crate::storage::{has_key, lemma_put, lookup, put, unique_keys, without};
use crate::tokens::{Preservation, TokenCall, TokenView};
use crate::types::{AccountId, AssetId, Balance, Error, Timestamp, ANCHOR_ASSET};
use vstd::prelude::*;

verus! {

/// What the ledger holds, as mathematical sequences in the order of
/// insertion.
pub struct State {
    /// The account that keeps the pools' tokens.
    pub custody: AccountId,
    /// The pool of each asset.
    pub pools: Seq<(AssetId, LendingPool)>,
    /// The loan of each borrower, borrowed asset and collateral asset.
    pub borrows: Seq<(LoanKey, UserBorrow)>,
    /// The price of the first asset of a pair in units of the second.
    pub prices: Seq<((AssetId, AssetId), Rate)>,
    /// The supply index that each account last minted shares of an asset at.
    pub supply_indexes: Seq<((AccountId, AssetId), SupplyIndex)>,
}

impl State {
    /// No table holds a key twice.
    pub open spec fn wf(self) -> bool {
        &&& unique_keys(self.pools)
        &&& unique_keys(self.borrows)
        &&& unique_keys(self.prices)
        &&& unique_keys(self.supply_indexes)
    }

    /// The records are as the operations of the ledger leave them: both
    /// indexes of every pool are at least one, and the balances of every
    /// loan can be read on the scale of rates.
    pub open spec fn sound(self) -> bool {
        &&& forall|asset: AssetId| #[trigger]
            has_key(self.pools, asset) ==> lookup(self.pools, asset).unwrap().indexes_valid()
        &&& forall|key: LoanKey| #[trigger]
            has_key(self.borrows, key) ==> loan_can_be_worked(
                lookup(self.borrows, key).unwrap(),
            )
    }

    /// The pool of `asset`.
    pub open spec fn pool(self, asset: AssetId) -> Option<LendingPool> {
        lookup(self.pools, asset)
    }

    /// The loan of `who` in `asset` against `collateral_asset`.
    pub open spec fn loan(self, who: AccountId, asset: AssetId, collateral_asset: AssetId)
        -> Option<UserBorrow> {
        lookup(self.borrows, (who, asset, collateral_asset))
    }

    /// The direct quote of `asset` in units of `base`.
    pub open spec fn price(self, asset: AssetId, base: AssetId) -> Option<Rate> {
        lookup(self.prices, (asset, base))
    }

    /// The worth of `base_amount` of `base_asset` in units of `quote_asset`:
    /// by the direct quote of the base asset, else by the inverse quote, else
    /// through the quotes of both assets in the anchor asset.
    pub open spec fn equivalent_amount(
        self,
        quote_asset: AssetId,
        base_asset: AssetId,
        base_amount: Balance,
    ) -> Result<Balance, Error> {
        let amount = Rate { inner: base_amount };
        match self.price(base_asset, quote_asset) {
            Some(p) => amount_of(checked_mul_spec(p, amount)),
            None => match self.price(quote_asset, base_asset) {
                Some(p) => amount_of(checked_div_spec(amount, p)),
                None => match self.price(quote_asset, ANCHOR_ASSET) {
                    None => Err(Error::AssetPriceNotSet),
                    Some(quote_price) => match self.price(base_asset, ANCHOR_ASSET) {
                        None => Err(Error::AssetPriceNotSet),
                        Some(base_price) => match checked_div_spec(base_price, quote_price) {
                            None => Err(Error::OverflowError),
                            Some(cross) => amount_of(checked_mul_spec(cross, amount)),
                        },
                    },
                },
            },
        }
    }

    /// The collateral in `collateral_asset` that a loan of `borrow_amount` of
    /// `borrow_asset` needs: the worth of the loan in the collateral asset,
    /// divided by the collateral factor of the borrowed asset's pool.
    pub open spec fn collateral_estimate(
        self,
        borrow_asset: AssetId,
        borrow_amount: Balance,
        collateral_asset: AssetId,
    ) -> Result<Balance, Error> {
        match self.pool(borrow_asset) {
            None => Err(Error::LendingPoolDoesNotExist),
            Some(pool) => match self.equivalent_amount(
                collateral_asset,
                borrow_asset,
                borrow_amount,
            ) {
                Err(e) => Err(e),
                Ok(worth) => amount_of(
                    checked_div_spec(Rate { inner: worth }, rate_of(pool.collateral_factor)),
                ),
            },
        }
    }
}

/// Whether what is owed on `loan`, and what a repayment releases of its
/// collateral, can be worked out: both balances can be read as whole numbers
/// on the scale of rates.
pub open spec fn loan_can_be_worked(loan: UserBorrow) -> bool {
    loan.borrowed_balance * ACCURACY <= u128::MAX && loan.collateral_balance * ACCURACY
        <= u128::MAX
}

/// Sums over the loans of one account.
#[derive(Clone, Copy, Debug, PartialEq, Eq, Structural)]
pub struct LtvTotals {
    /// What the account owes, in the anchor asset.
    pub borrowed: Balance,
    /// The collateral that the account has given, in the anchor asset.
    pub collateral: Balance,
    /// The lowest collateral factor among the pools that it borrowed from.
    pub min_collateral_factor: Ratio,
    /// The lowest liquidation threshold among those pools.
    pub min_liquidation_threshold: Ratio,
}

/// `a + b`, or the largest amount where the sum exceeds it.
pub open spec fn saturating_sum(a: Balance, b: Balance) -> Balance {
    if a + b > u128::MAX {
        u128::MAX
    } else {
        (a + b) as u128
    }
}

/// `a` where it is below `b`, else `b`.
pub open spec fn lower_ratio(a: Ratio, b: Ratio) -> Ratio {
    if a.parts < b.parts {
        a
    } else {
        b
    }
}

/// The outcome of an operation: the ledger after it, and the calls on the
/// token ledger that carry it out, in their order.
pub struct Step {
    pub state: State,
    pub calls: Seq<TokenCall>,
}

/// Every pool of `before` is still there in `after`, and neither of its
/// indexes is lower.
pub open spec fn indexes_kept(before: State, after: State) -> bool {
    forall|asset: AssetId| #[trigger]
        has_key(before.pools, asset) ==> has_key(after.pools, asset) && lookup(
            after.pools,
            asset,
        ).unwrap().supply_index.inner >= lookup(before.pools, asset).unwrap().supply_index.inner
            && lookup(after.pools, asset).unwrap().borrow_index.inner >= lookup(
            before.pools,
            asset,
        ).unwrap().borrow_index.inner
}

impl State {
    /// The ledger with `pool` as the pool of `asset`.
    pub open spec fn with_pool(self, asset: AssetId, pool: LendingPool) -> State {
        State { pools: put(self.pools, asset, pool), ..self }
    }

    /// The ledger after the pool of `asset` was activated.
    pub open spec fn activated(self, asset: AssetId) -> Result<State, Error> {
        match self.pool(asset) {
            None => Err(Error::LendingPoolDoesNotExist),
            Some(pool) => if pool.activated {
                Err(Error::LendingPoolAlreadyActivated)
            } else if pool.reserve_balance == 0 {
                Err(Error::LendingPoolIsEmpty)
            } else {
                Ok(self.with_pool(asset, LendingPool { activated: true, ..pool }))
            },
        }
    }

    /// The ledger after the pool of `asset` was deactivated.
    pub open spec fn deactivated(self, asset: AssetId) -> Result<State, Error> {
        match self.pool(asset) {
            None => Err(Error::LendingPoolDoesNotExist),
            Some(pool) => if !pool.activated {
                Err(Error::LendingPoolAlreadyDeactivated)
            } else {
                Ok(self.with_pool(asset, LendingPool { activated: false, ..pool }))
            },
        }
    }

    /// The supply index that `who` last minted shares of `asset` at; zero
    /// before the first mint.
    pub open spec fn supply_index_of(self, who: AccountId, asset: AssetId) -> SupplyIndex {
        match lookup(self.supply_indexes, (who, asset)) {
            Some(s) => s,
            None => SupplyIndex { supply_index: Rate { inner: 0 }, last_accrued_interest_at: 0 },
        }
    }

    /// The shares to mint for a deposit worth `scaled_balance` shares: the
    /// deposit's own, and the interest on the shares `old_balance` that the
    /// account holds, `(current_supply_index - last_supply_index) *
    /// old_balance`.
    pub open spec fn mint_amount(
        self,
        old_balance: Balance,
        who: AccountId,
        asset: AssetId,
        scaled_balance: Balance,
        current_supply_index: Rate,
    ) -> Result<Balance, Error> {
        match checked_sub_spec(current_supply_index, self.supply_index_of(who, asset).supply_index) {
            None => Err(Error::OverflowError),
            Some(growth) => match scale_amount(growth, old_balance) {
                Err(e) => Err(e),
                Ok(interest) => if scaled_balance + interest > u128::MAX {
                    Err(Error::OverflowError)
                } else {
                    Ok((scaled_balance + interest) as u128)
                },
            },
        }
    }

    /// The ledger after shares were minted to `who`, and the mint.
    pub open spec fn minted(
        self,
        tokens: &TokenView,
        who: AccountId,
        asset: AssetId,
        lp_id: AssetId,
        scaled_balance: Balance,
        current_supply_index: Rate,
        now: Timestamp,
    ) -> Result<Step, Error> {
        match self.mint_amount(
            tokens.spec_balance(lp_id, who),
            who,
            asset,
            scaled_balance,
            current_supply_index,
        ) {
            Err(e) => Err(e),
            Ok(amount) => Ok(
                Step {
                    state: State {
                        supply_indexes: put(
                            self.supply_indexes,
                            (who, asset),
                            SupplyIndex {
                                supply_index: current_supply_index,
                                last_accrued_interest_at: now,
                            },
                        ),
                        ..self
                    },
                    calls: seq![TokenCall::MintInto { asset: lp_id, who, amount }],
                },
            ),
        }
    }

    /// The outcome of creating the pool `id` of `asset` with `balance` from
    /// `who`.
    pub open spec fn created(
        self,
        tokens: &TokenView,
        who: AccountId,
        id: AssetId,
        asset: AssetId,
        balance: Balance,
        now: Timestamp,
    ) -> Result<Step, Error> {
        if balance == 0 {
            Err(Error::InvalidLiquiditySupply)
        } else if tokens.spec_balance(asset, who) < balance {
            Err(Error::NotEnoughLiquiditySupply)
        } else if has_key(self.pools, asset) {
            Err(Error::LendingPoolAlreadyExists)
        } else if tokens.spec_exists(id) {
            Err(Error::IdAlreadyExists)
        } else {
            let pool = LendingPool::spec_from(id, asset, balance, now);
            match pool.scaled_supply_spec(balance) {
                Err(e) => Err(e),
                Ok(scaled) => match self.minted(
                    tokens,
                    who,
                    asset,
                    id,
                    scaled,
                    pool.supply_index,
                    now,
                ) {
                    Err(e) => Err(e),
                    Ok(step) => Ok(
                        Step {
                            state: step.state.with_pool(asset, pool),
                            calls: seq![
                                TokenCall::Transfer {
                                    asset,
                                    source: who,
                                    dest: self.custody,
                                    amount: balance,
                                    preservation: Preservation::Expendable,
                                },
                                TokenCall::Create { id, admin: self.custody },
                            ] + step.calls,
                        },
                    ),
                },
            }
        }
    }

    /// The outcome of a deposit of `balance` of `asset` by `who`.
    pub open spec fn supplied(
        self,
        tokens: &TokenView,
        who: AccountId,
        asset: AssetId,
        balance: Balance,
        now: Timestamp,
    ) -> Result<Step, Error> {
        if balance == 0 {
            Err(Error::InvalidLiquiditySupply)
        } else if tokens.spec_balance(asset, who) < balance {
            Err(Error::NotEnoughLiquiditySupply)
        } else {
            match self.pool(asset) {
                None => Err(Error::LendingPoolDoesNotExist),
                Some(stored) => if !stored.activated {
                    Err(Error::LendingPoolNotActive)
                } else {
                    match stored.accrued(now) {
                        Err(e) => Err(e),
                        Ok(pool) => if pool.reserve_balance + balance > u128::MAX {
                            Err(Error::OverflowError)
                        } else {
                            match pool.scaled_supply_spec(balance) {
                                Err(e) => Err(e),
                                Ok(scaled) => match self.minted(
                                    tokens,
                                    who,
                                    asset,
                                    pool.id,
                                    scaled,
                                    pool.supply_index,
                                    now,
                                ) {
                                    Err(e) => Err(e),
                                    Ok(step) => Ok(
                                        Step {
                                            state: step.state.with_pool(
                                                asset,
                                                LendingPool {
                                                    reserve_balance: (pool.reserve_balance
                                                        + balance) as u128,
                                                    ..pool
                                                },
                                            ),
                                            calls: seq![
                                                TokenCall::Transfer {
                                                    asset,
                                                    source: who,
                                                    dest: self.custody,
                                                    amount: balance,
                                                    preservation: Preservation::Expendable,
                                                },
                                            ] + step.calls,
                                        },
                                    ),
                                },
                            }
                        },
                    }
                },
            }
        }
    }

    /// The outcome of a withdrawal of `balance` of `asset` by `who`.
    pub open spec fn withdrawn(
        self,
        tokens: &TokenView,
        who: AccountId,
        asset: AssetId,
        balance: Balance,
        now: Timestamp,
    ) -> Result<Step, Error> {
        if balance == 0 {
            Err(Error::InvalidLiquidityWithdrawal)
        } else {
            match self.pool(asset) {
                None => Err(Error::LendingPoolDoesNotExist),
                Some(stored) => if stored.reserve_balance < balance {
                    Err(Error::NotEnoughLiquiditySupply)
                } else {
                    match stored.accrued(now) {
                        Err(e) => Err(e),
                        Ok(pool) => match pool.accrued_deposit_spec(
                            tokens.spec_balance(pool.id, who),
                        ) {
                            Err(e) => Err(e),
                            Ok(eligible) => if eligible < balance {
                                Err(Error::NotEnoughEligibleLiquidityToWithdraw)
                            } else {
                                match pool.scaled_supply_spec(balance) {
                                    Err(e) => Err(e),
                                    Ok(burnable) => Ok(
                                        Step {
                                            state: self.with_pool(
                                                asset,
                                                LendingPool {
                                                    reserve_balance: (pool.reserve_balance
                                                        - balance) as u128,
                                                    ..pool
                                                },
                                            ),
                                            calls: seq![
                                                TokenCall::Transfer {
                                                    asset,
                                                    source: self.custody,
                                                    dest: who,
                                                    amount: balance,
                                                    preservation: Preservation::Preserve,
                                                },
                                                TokenCall::BurnFrom {
                                                    asset: pool.id,
                                                    who,
                                                    amount: burnable,
                                                },
                                            ],
                                        },
                                    ),
                                }
                            },
                        },
                    }
                },
            }
        }
    }

    /// The loan of `who` after a further borrow recorded as `fresh`: `fresh`
    /// itself where `who` has no such loan yet, else the loan grown by it.
    pub open spec fn loan_after_borrow(self, who: AccountId, fresh: UserBorrow) -> Result<
        UserBorrow,
        Error,
    > {
        match self.loan(who, fresh.borrowed_asset, fresh.collateral_asset) {
            None => Ok(fresh),
            Some(existing) => if existing.borrowed_balance + fresh.borrowed_balance > u128::MAX
                || existing.collateral_balance + fresh.collateral_balance > u128::MAX {
                Err(Error::OverflowError)
            } else {
                Ok(existing.increased(fresh))
            },
        }
    }

    /// The outcome of `who` borrowing `balance` of `asset` against
    /// `collateral_balance` of `collateral_asset`.
    pub open spec fn borrowed(
        self,
        tokens: &TokenView,
        who: AccountId,
        asset: AssetId,
        balance: Balance,
        collateral_asset: AssetId,
        collateral_balance: Balance,
        now: Timestamp,
    ) -> Result<Step, Error> {
        if balance == 0 || collateral_balance == 0 {
            Err(Error::InvalidLiquidityWithdrawal)
        } else {
            match self.pool(asset) {
                None => Err(Error::LendingPoolDoesNotExist),
                Some(stored) => if tokens.spec_reducible(collateral_asset, who)
                    < collateral_balance {
                    Err(Error::NotEnoughLiquiditySupply)
                } else if !stored.activated {
                    Err(Error::LendingPoolNotActive)
                } else if stored.reserve_balance < balance {
                    Err(Error::NotEnoughLiquiditySupply)
                } else {
                    match stored.accrued(now) {
                        Err(e) => Err(e),
                        Ok(pool) => self.borrowed_from(
                            pool,
                            who,
                            asset,
                            balance,
                            collateral_asset,
                            collateral_balance,
                        ),
                    }
                },
            }
        }
    }

    /// The outcome of a borrow from the accrued `pool` of `asset`, once the
    /// amounts, the pool's state and the balance of the borrower are found in
    /// order: the collateral must be worth the loan, and the loan is
    /// recorded at the pool's borrow index. A loan so large that what is
    /// owed on it could not be worked out is refused.
    pub open spec fn borrowed_from(
        self,
        pool: LendingPool,
        who: AccountId,
        asset: AssetId,
        balance: Balance,
        collateral_asset: AssetId,
        collateral_balance: Balance,
    ) -> Result<Step, Error> {
        match self.equivalent_amount(asset, collateral_asset, collateral_balance) {
            Err(e) => Err(e),
            Ok(worth) => match pool.max_borrow_spec(worth) {
                Err(e) => Err(e),
                Ok(eligible) => if eligible < balance {
                    Err(Error::NotEnoughCollateral)
                } else {
                    match pool.scaled_borrow_spec(balance) {
                        Err(e) => Err(e),
                        Ok(scaled) => match self.loan_after_borrow(
                            who,
                            UserBorrow {
                                borrowed_asset: asset,
                                borrowed_balance: scaled,
                                collateral_asset,
                                collateral_balance,
                                borrow_index_at_borrow_time: pool.borrow_index,
                            },
                        ) {
                            Err(e) => Err(e),
                            Ok(loan) => if !loan_can_be_worked(loan) || balance
                                > pool.reserve_balance || pool.borrowed_balance + balance
                                > u128::MAX {
                                Err(Error::OverflowError)
                            } else {
                                Ok(
                                    Step {
                                        state: State {
                                            borrows: put(
                                                self.borrows,
                                                (who, asset, collateral_asset),
                                                loan,
                                            ),
                                            ..self
                                        }.with_pool(asset, pool.after_borrow(balance)),
                                        calls: seq![
                                            TokenCall::Transfer {
                                                asset,
                                                source: self.custody,
                                                dest: who,
                                                amount: balance,
                                                preservation: Preservation::Preserve,
                                            },
                                            TokenCall::Transfer {
                                                asset: collateral_asset,
                                                source: who,
                                                dest: self.custody,
                                                amount: collateral_balance,
                                                preservation: Preservation::Preserve,
                                            },
                                        ],
                                    },
                                )
                            },
                        },
                    }
                },
            },
        }
    }

    /// The outcome of `who` repaying up to `balance` of the loan in `asset`
    /// against `collateral_asset`.
    pub open spec fn repaid(
        self,
        who: AccountId,
        asset: AssetId,
        balance: Balance,
        collateral_asset: AssetId,
        now: Timestamp,
    ) -> Result<Step, Error> {
        if balance == 0 {
            Err(Error::InvalidLiquidityWithdrawal)
        } else {
            match self.pool(asset) {
                None => Err(Error::LendingPoolDoesNotExist),
                Some(stored) => match stored.accrued(now) {
                    Err(e) => Err(e),
                    Ok(pool) => match self.loan(who, asset, collateral_asset) {
                        None => Err(Error::LoanDoesNotExists),
                        Some(loan) => match pool.repayable_spec(loan) {
                            Err(e) => Err(e),
                            Ok(repayable) => self.repaid_of(
                                pool,
                                loan,
                                repayable,
                                who,
                                asset,
                                balance,
                                collateral_asset,
                            ),
                        },
                    },
                },
            }
        }
    }

    /// The outcome of a repayment of up to `balance` on `loan`, of which
    /// `repayable` is owed to the accrued `pool`.
    ///
    /// What is paid is `balance`, but no more than is owed. The loan's
    /// scaled balance and its collateral fall by the paid fraction of each.
    /// A payment of all that is owed removes the loan and releases all of
    /// its collateral; a smaller one releases the paid fraction of it.
    pub open spec fn repaid_of(
        self,
        pool: LendingPool,
        loan: UserBorrow,
        repayable: Balance,
        who: AccountId,
        asset: AssetId,
        balance: Balance,
        collateral_asset: AssetId,
    ) -> Result<Step, Error> {
        let pay = if balance < repayable {
            balance
        } else {
            repayable
        };
        let full = balance >= repayable;
        if repayable == 0 || div_raw(pay as int, repayable as int) > u128::MAX {
            Err(Error::OverflowError)
        } else {
            let ratio = Rate { inner: div_raw(pay as int, repayable as int) as u128 };
            match scale_amount(ratio, loan.borrowed_balance) {
                Err(e) => Err(e),
                Ok(reduction) => if reduction > pool.borrowed_balance || pool.reserve_balance + pay
                    > u128::MAX {
                    Err(Error::OverflowError)
                } else {
                    match scale_amount(ratio, loan.collateral_balance) {
                        Err(e) => Err(e),
                        Ok(release) => if release > loan.collateral_balance {
                            Err(Error::OverflowError)
                        } else {
                            Ok(
                                Step {
                                    state: State {
                                        borrows: if full {
                                            without(self.borrows, (who, asset, collateral_asset))
                                        } else {
                                            put(
                                                self.borrows,
                                                (who, asset, collateral_asset),
                                                UserBorrow {
                                                    borrowed_balance: if reduction
                                                        > loan.borrowed_balance {
                                                        0
                                                    } else {
                                                        (loan.borrowed_balance - reduction) as u128
                                                    },
                                                    collateral_balance: (loan.collateral_balance
                                                        - release) as u128,
                                                    ..loan
                                                },
                                            )
                                        },
                                        ..self
                                    }.with_pool(asset, pool.after_repay(pay, reduction)),
                                    calls: seq![
                                        TokenCall::Transfer {
                                            asset,
                                            source: who,
                                            dest: self.custody,
                                            amount: pay,
                                            preservation: Preservation::Preserve,
                                        },
                                        TokenCall::Transfer {
                                            asset: collateral_asset,
                                            source: self.custody,
                                            dest: who,
                                            amount: if full {
                                                loan.collateral_balance
                                            } else {
                                                release
                                            },
                                            preservation: if full {
                                                Preservation::Preserve
                                            } else {
                                                Preservation::Expendable
                                            },
                                        },
                                    ],
                                },
                            )
                        },
                    }
                },
            }
        }
    }

    /// The running totals of the loans of `account` after one more entry of
    /// the loan table.
    ///
    /// A loan of another account, or one whose pool is missing or cannot
    /// accrue, or whose debt cannot be worked out or valued, changes
    /// nothing. The debt of any other loan counts. Its collateral counts
    /// where it can be valued, and only then do the factors of its pool.
    pub open spec fn ltv_add(
        self,
        totals: LtvTotals,
        key: LoanKey,
        loan: UserBorrow,
        account: AccountId,
        now: Timestamp,
    ) -> LtvTotals {
        if key.0 != account {
            totals
        } else {
            match self.pool(key.1) {
                None => totals,
                Some(stored) => match stored.accrued(now) {
                    Err(_) => totals,
                    Ok(pool) => match pool.repayable_spec(loan) {
                        Err(_) => totals,
                        Ok(repayable) => match self.equivalent_amount(
                            ANCHOR_ASSET,
                            key.1,
                            repayable,
                        ) {
                            Err(_) => totals,
                            Ok(borrowed) => {
                                let with_debt = LtvTotals {
                                    borrowed: saturating_sum(totals.borrowed, borrowed),
                                    ..totals
                                };
                                match self.equivalent_amount(
                                    ANCHOR_ASSET,
                                    key.2,
                                    loan.collateral_balance,
                                ) {
                                    Err(_) => with_debt,
                                    Ok(collateral) => LtvTotals {
                                        collateral: saturating_sum(
                                            with_debt.collateral,
                                            collateral,
                                        ),
                                        min_collateral_factor: lower_ratio(
                                            pool.collateral_factor,
                                            totals.min_collateral_factor,
                                        ),
                                        min_liquidation_threshold: lower_ratio(
                                            pool.liquidation_threshold,
                                            totals.min_liquidation_threshold,
                                        ),
                                        ..with_debt
                                    },
                                }
                            },
                        },
                    },
                },
            }
        }
    }

    /// The totals of the loans of `account` among the first `n` entries of
    /// the loan table.
    pub open spec fn ltv_totals(self, account: AccountId, now: Timestamp, n: nat) -> LtvTotals
        decreases n,
    {
        if n == 0 || n > self.borrows.len() {
            LtvTotals {
                borrowed: 0,
                collateral: 0,
                min_collateral_factor: Ratio { parts: RATIO_ACCURACY },
                min_liquidation_threshold: Ratio { parts: RATIO_ACCURACY },
            }
        } else {
            self.ltv_add(
                self.ltv_totals(account, now, (n - 1) as nat),
                self.borrows[n - 1].0,
                self.borrows[n - 1].1,
                account,
                now,
            )
        }
    }

    /// The loan-to-value figures of `account`: debt over collateral, both in
    /// the anchor asset and zero without collateral; the lowest collateral
    /// factor; the lowest liquidation threshold.
    pub open spec fn user_ltv(self, account: AccountId, now: Timestamp) -> (Rate, Rate, Rate) {
        let totals = self.ltv_totals(account, now, self.borrows.len());
        (
            if totals.collateral != 0 && div_raw(totals.borrowed as int, totals.collateral as int)
                <= u128::MAX {
                Rate { inner: div_raw(totals.borrowed as int, totals.collateral as int) as u128 }
            } else {
                Rate { inner: 0 }
            },
            rate_of(totals.min_collateral_factor),
            rate_of(totals.min_liquidation_threshold),
        )
    }
}

/// Ten to the power `n`.
pub open spec fn pow10(n: nat) -> nat
    decreases n,
{
    if n == 0 {
        1
    } else {
        10 * pow10((n - 1) as nat)
    }
}

/// Powers of ten grow with the exponent.
pub proof fn lemma_pow10_grows(a: nat, b: nat)
    requires
        a <= b,
    ensures
        pow10(a) <= pow10(b),
        pow10(a) >= 1,
    decreases b,
{
    if a < b {
        lemma_pow10_grows(a, (b - 1) as nat);
    } else if a > 0 {
        lemma_pow10_grows((a - 1) as nat, (b - 1) as nat);
    }
}

/// The price of `asset` in units of `base_asset`: the direct quote divided by
/// ten to the decimals of the base asset, else the quotient of the two
/// assets' quotes in the anchor asset.
pub open spec fn asset_price_spec(
    state: State,
    tokens: &TokenView,
    asset: AssetId,
    base_asset: AssetId,
) -> Result<Rate, Error> {
    match state.price(asset, base_asset) {
        Some(p) => {
            let divisor = pow10(tokens.spec_decimals(base_asset) as nat);
            if divisor * ACCURACY > u128::MAX {
                Err(Error::OverflowError)
            } else {
                match checked_div_spec(p, Rate { inner: (divisor * ACCURACY) as u128 }) {
                    Some(price) => Ok(price),
                    None => Err(Error::DivisionByZero),
                }
            }
        },
        None => match state.price(asset, ANCHOR_ASSET) {
            None => Err(Error::AssetPriceNotSet),
            Some(asset_price) => match state.price(base_asset, ANCHOR_ASSET) {
                None => Err(Error::AssetPriceNotSet),
                Some(base_price) => match checked_div_spec(asset_price, base_price) {
                    Some(price) => Ok(price),
                    None => Err(Error::DivisionByZero),
                },
            },
        },
    }
}

/// A ledger keeps its own indexes.
pub proof fn lemma_indexes_kept_same(state: State)
    ensures
        indexes_kept(state, state),
{
}

/// Putting a pool keeps the indexes where the pool's own are not lower than
/// those of the pool that it replaces.
pub proof fn lemma_indexes_kept_put(state: State, asset: AssetId, pool: LendingPool)
    requires
        unique_keys(state.pools),
        state.pool(asset) matches Some(before) ==> pool.supply_index.inner
            >= before.supply_index.inner && pool.borrow_index.inner >= before.borrow_index.inner,
    ensures
        indexes_kept(state, state.with_pool(asset, pool)),
{
    lemma_put(state.pools, asset, pool);
    let after = state.with_pool(asset, pool);
    assert forall|a: AssetId| #[trigger] has_key(state.pools, a) implies has_key(after.pools, a)
        && lookup(after.pools, a).unwrap().supply_index.inner >= lookup(
        state.pools,
        a,
    ).unwrap().supply_index.inner && lookup(after.pools, a).unwrap().borrow_index.inner >= lookup(
        state.pools,
        a,
    ).unwrap().borrow_index.inner by {
        if a != asset {
            assert(lookup(after.pools, a) == lookup(state.pools, a));
        }
    }
}

} // verus!
