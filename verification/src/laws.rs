//! Laws of the ledger that relate several of its operations.

use crate::borrow_repay::UserBorrow;
use crate::fixed::{div_raw, mul_raw, Rate, Ratio, ACCURACY, RATIO_ACCURACY};
use crate::state::{
    indexes_kept, lemma_indexes_kept_put, loan_can_be_worked, lower_ratio, State, Step,
};
use crate::pool::{lemma_accrued_keeps_indexes, rate_of, scale_amount, LendingPool};
use crate::storage::{
    has_key, lemma_position, lemma_put, lemma_without, lookup, put, unique_keys, without,
};
use crate::tokens::{TokenCall, TokenView};
use crate::types::{AccountId, AssetId, Balance, Error, Timestamp, ANCHOR_ASSET};
use vstd::prelude::*;

verus! {

/// Over any sequence of operations the indexes of a pool never fall: what
/// holds from one ledger to the next, and from there to a third, holds from
/// the first to the third.
pub proof fn lemma_indexes_kept_over_time(first: State, second: State, third: State)
    requires
        indexes_kept(first, second),
        indexes_kept(second, third),
    ensures
        indexes_kept(first, third),
{
    assert forall|asset: AssetId| #[trigger] has_key(first.pools, asset) implies has_key(
        third.pools,
        asset,
    ) && lookup(third.pools, asset).unwrap().supply_index.inner >= lookup(
        first.pools,
        asset,
    ).unwrap().supply_index.inner && lookup(third.pools, asset).unwrap().borrow_index.inner
        >= lookup(first.pools, asset).unwrap().borrow_index.inner by {
        assert(has_key(second.pools, asset));
    }
}

/// Index monotonicity: no operation of the ledger lowers an index of a pool.
///
/// Whatever operation goes through, every pool that was there is still
/// there, and neither its supply index nor its borrow index has fallen.
pub proof fn lemma_operations_keep_indexes(
    state: State,
    tokens: &TokenView,
    who: AccountId,
    id: AssetId,
    asset: AssetId,
    balance: Balance,
    collateral_asset: AssetId,
    collateral_balance: Balance,
    now: Timestamp,
)
    requires
        state.wf(),
    ensures
        state.created(tokens, who, id, asset, balance, now) matches Ok(step) ==> indexes_kept(
            state,
            step.state,
        ),
        state.activated(asset) matches Ok(next) ==> indexes_kept(state, next),
        state.deactivated(asset) matches Ok(next) ==> indexes_kept(state, next),
        state.supplied(tokens, who, asset, balance, now) matches Ok(step) ==> indexes_kept(
            state,
            step.state,
        ),
        state.withdrawn(tokens, who, asset, balance, now) matches Ok(step) ==> indexes_kept(
            state,
            step.state,
        ),
        state.borrowed(
            tokens,
            who,
            asset,
            balance,
            collateral_asset,
            collateral_balance,
            now,
        ) matches Ok(step) ==> indexes_kept(state, step.state),
        state.repaid(who, asset, balance, collateral_asset, now) matches Ok(step) ==> indexes_kept(
            state,
            step.state,
        ),
{
    match state.pool(asset) {
        Some(stored) => {
            lemma_accrued_keeps_indexes(stored, now);
        },
        None => {},
    }
    if let Ok(step) = state.created(tokens, who, id, asset, balance, now) {
        lemma_indexes_kept_put(state, asset, LendingPool::spec_from(id, asset, balance, now));
    }
    if let Ok(next) = state.activated(asset) {
        lemma_indexes_kept_put(
            state,
            asset,
            LendingPool { activated: true, ..state.pool(asset).unwrap() },
        );
    }
    if let Ok(next) = state.deactivated(asset) {
        lemma_indexes_kept_put(
            state,
            asset,
            LendingPool { activated: false, ..state.pool(asset).unwrap() },
        );
    }
    if let Ok(step) = state.supplied(tokens, who, asset, balance, now) {
        let pool = state.pool(asset).unwrap().accrued(now).unwrap();
        lemma_indexes_kept_put(
            state,
            asset,
            LendingPool { reserve_balance: (pool.reserve_balance + balance) as u128, ..pool },
        );
    }
    if let Ok(step) = state.withdrawn(tokens, who, asset, balance, now) {
        let pool = state.pool(asset).unwrap().accrued(now).unwrap();
        lemma_indexes_kept_put(
            state,
            asset,
            LendingPool { reserve_balance: (pool.reserve_balance - balance) as u128, ..pool },
        );
    }
    if let Ok(step) = state.borrowed(
        tokens,
        who,
        asset,
        balance,
        collateral_asset,
        collateral_balance,
        now,
    ) {
        let pool = state.pool(asset).unwrap().accrued(now).unwrap();
        lemma_indexes_kept_put(state, asset, pool.after_borrow(balance));
    }
    if let Ok(step) = state.repaid(who, asset, balance, collateral_asset, now) {
        let pool = state.pool(asset).unwrap().accrued(now).unwrap();
        let loan = state.loan(who, asset, collateral_asset).unwrap();
        let owed = pool.repayable_spec(loan).unwrap();
        let pay = if balance < owed {
            balance
        } else {
            owed
        };
        let ratio = Rate { inner: div_raw(pay as int, owed as int) as u128 };
        let reduction = scale_amount(ratio, loan.borrowed_balance).unwrap();
        lemma_indexes_kept_put(state, asset, pool.after_repay(pay, reduction));
    }
}

/// Putting a pool with valid indexes keeps the records sound.
pub proof fn lemma_sound_with_pool(state: State, asset: AssetId, pool: LendingPool)
    requires
        unique_keys(state.pools),
        state.sound(),
        pool.indexes_valid(),
    ensures
        state.with_pool(asset, pool).sound(),
{
    lemma_put(state.pools, asset, pool);
    let after = state.with_pool(asset, pool);
    assert forall|a: AssetId| #[trigger] has_key(after.pools, a) implies lookup(
        after.pools,
        a,
    ).unwrap().indexes_valid() by {
        if a != asset {
            assert(has_key(state.pools, a));
            assert(lookup(after.pools, a) == lookup(state.pools, a));
        }
    }
}

/// Putting a loan that can be worked keeps the records sound.
pub proof fn lemma_sound_with_loan(state: State, key: (AccountId, AssetId, AssetId), loan: UserBorrow)
    requires
        unique_keys(state.borrows),
        state.sound(),
        loan_can_be_worked(loan),
    ensures
        (State { borrows: put(state.borrows, key, loan), ..state }).sound(),
{
    lemma_put(state.borrows, key, loan);
    let after = State { borrows: put(state.borrows, key, loan), ..state };
    assert forall|k: (AccountId, AssetId, AssetId)| #[trigger]
        has_key(after.borrows, k) implies loan_can_be_worked(
        lookup(after.borrows, k).unwrap(),
    ) by {
        if k != key {
            assert(has_key(state.borrows, k));
            assert(lookup(after.borrows, k) == lookup(state.borrows, k));
        }
    }
}

/// Taking a loan out keeps the records sound.
pub proof fn lemma_sound_without_loan(state: State, key: (AccountId, AssetId, AssetId))
    requires
        unique_keys(state.borrows),
        state.sound(),
    ensures
        (State { borrows: without(state.borrows, key), ..state }).sound(),
{
    lemma_without(state.borrows, key);
    let after = State { borrows: without(state.borrows, key), ..state };
    assert forall|k: (AccountId, AssetId, AssetId)| #[trigger]
        has_key(after.borrows, k) implies loan_can_be_worked(
        lookup(after.borrows, k).unwrap(),
    ) by {
        if k != key {
            assert(lookup(after.borrows, k) == lookup(state.borrows, k));
            assert(has_key(state.borrows, k));
        }
    }
}

/// The operations that read the token ledger keep the records sound: after
/// the creation of a pool, a deposit, a withdrawal or a borrow, both indexes
/// of every pool are still at least one, and every loan can still be
/// worked.
pub proof fn lemma_token_operations_keep_sound(
    state: State,
    tokens: &TokenView,
    who: AccountId,
    id: AssetId,
    asset: AssetId,
    balance: Balance,
    collateral_asset: AssetId,
    collateral_balance: Balance,
    now: Timestamp,
)
    requires
        state.wf(),
        state.sound(),
    ensures
        state.created(tokens, who, id, asset, balance, now) matches Ok(step) ==> step.state.sound(),
        state.supplied(tokens, who, asset, balance, now) matches Ok(step) ==> step.state.sound(),
        state.withdrawn(tokens, who, asset, balance, now) matches Ok(step) ==> step.state.sound(),
        state.borrowed(
            tokens,
            who,
            asset,
            balance,
            collateral_asset,
            collateral_balance,
            now,
        ) matches Ok(step) ==> step.state.sound(),
{
    match state.pool(asset) {
        Some(stored) => {
            assert(has_key(state.pools, asset));
            lemma_accrued_keeps_indexes(stored, now);
        },
        None => {},
    }
    if let Ok(step) = state.created(tokens, who, id, asset, balance, now) {
        let pool = LendingPool::spec_from(id, asset, balance, now);
        let scaled = pool.scaled_supply_spec(balance).unwrap();
        let minted = state.minted(tokens, who, asset, id, scaled, pool.supply_index, now).unwrap();
        lemma_sound_with_pool(minted.state, asset, pool);
    }
    if let Ok(step) = state.supplied(tokens, who, asset, balance, now) {
        let pool = state.pool(asset).unwrap().accrued(now).unwrap();
        let scaled = pool.scaled_supply_spec(balance).unwrap();
        let minted = state.minted(
            tokens,
            who,
            asset,
            pool.id,
            scaled,
            pool.supply_index,
            now,
        ).unwrap();
        lemma_sound_with_pool(
            minted.state,
            asset,
            LendingPool { reserve_balance: (pool.reserve_balance + balance) as u128, ..pool },
        );
    }
    if let Ok(step) = state.withdrawn(tokens, who, asset, balance, now) {
        let pool = state.pool(asset).unwrap().accrued(now).unwrap();
        lemma_sound_with_pool(
            state,
            asset,
            LendingPool { reserve_balance: (pool.reserve_balance - balance) as u128, ..pool },
        );
    }
    if let Ok(step) = state.borrowed(
        tokens,
        who,
        asset,
        balance,
        collateral_asset,
        collateral_balance,
        now,
    ) {
        let pool = state.pool(asset).unwrap().accrued(now).unwrap();
        let scaled = pool.scaled_borrow_spec(balance).unwrap();
        let loan = state.loan_after_borrow(
            who,
            UserBorrow {
                borrowed_asset: asset,
                borrowed_balance: scaled,
                collateral_asset,
                collateral_balance,
                borrow_index_at_borrow_time: pool.borrow_index,
            },
        ).unwrap();
        let key = (who, asset, collateral_asset);
        lemma_sound_with_loan(state, key, loan);
        lemma_sound_with_pool(
            State { borrows: put(state.borrows, key, loan), ..state },
            asset,
            pool.after_borrow(balance),
        );
    }
}

/// The other operations keep the records sound: after an activation, a
/// deactivation or a repayment, both indexes of every pool are still at
/// least one, and every loan can still be worked.
pub proof fn lemma_operations_keep_sound(
    state: State,
    who: AccountId,
    asset: AssetId,
    balance: Balance,
    collateral_asset: AssetId,
    now: Timestamp,
)
    requires
        state.wf(),
        state.sound(),
    ensures
        state.activated(asset) matches Ok(next) ==> next.sound(),
        state.deactivated(asset) matches Ok(next) ==> next.sound(),
        state.repaid(who, asset, balance, collateral_asset, now) matches Ok(step)
            ==> step.state.sound(),
{
    match state.pool(asset) {
        Some(stored) => {
            assert(has_key(state.pools, asset));
            lemma_accrued_keeps_indexes(stored, now);
        },
        None => {},
    }
    if let Ok(next) = state.activated(asset) {
        lemma_sound_with_pool(
            state,
            asset,
            LendingPool { activated: true, ..state.pool(asset).unwrap() },
        );
    }
    if let Ok(next) = state.deactivated(asset) {
        lemma_sound_with_pool(
            state,
            asset,
            LendingPool { activated: false, ..state.pool(asset).unwrap() },
        );
    }
    if let Ok(step) = state.repaid(who, asset, balance, collateral_asset, now) {
        let pool = state.pool(asset).unwrap().accrued(now).unwrap();
        let loan = state.loan(who, asset, collateral_asset).unwrap();
        let key = (who, asset, collateral_asset);
        assert(has_key(state.borrows, key));
        let owed = pool.repayable_spec(loan).unwrap();
        let pay = if balance < owed {
            balance
        } else {
            owed
        };
        let ratio = Rate { inner: div_raw(pay as int, owed as int) as u128 };
        let reduction = scale_amount(ratio, loan.borrowed_balance).unwrap();
        let release = scale_amount(ratio, loan.collateral_balance).unwrap();
        let kept = UserBorrow {
            borrowed_balance: if reduction > loan.borrowed_balance {
                0
            } else {
                (loan.borrowed_balance - reduction) as u128
            },
            collateral_balance: (loan.collateral_balance - release) as u128,
            ..loan
        };
        assert(loan_can_be_worked(kept)) by (nonlinear_arith)
            requires
                loan_can_be_worked(loan),
                kept.borrowed_balance <= loan.borrowed_balance,
                kept.collateral_balance <= loan.collateral_balance,
        ;
        if balance >= owed {
            lemma_sound_without_loan(state, key);
            lemma_sound_with_pool(
                State { borrows: without(state.borrows, key), ..state },
                asset,
                pool.after_repay(pay, reduction),
            );
        } else {
            lemma_sound_with_loan(state, key, kept);
            lemma_sound_with_pool(
                State { borrows: put(state.borrows, key, kept), ..state },
                asset,
                pool.after_repay(pay, reduction),
            );
        }
    }
}

impl State {
    /// Whether the `i`-th loan counts in full towards the loan-to-value
    /// figures of `account`: it is a loan of that account, its pool is there
    /// and accrues until `now`, and both its debt and its collateral can be
    /// valued in the anchor asset.
    pub open spec fn loan_counts(self, i: int, account: AccountId, now: Timestamp) -> bool {
        let key = self.borrows[i].0;
        let loan = self.borrows[i].1;
        &&& key.0 == account
        &&& self.pool(key.1) matches Some(stored)
        &&& stored.accrued(now) matches Ok(pool)
        &&& pool.repayable_spec(loan) matches Ok(repayable)
        &&& self.equivalent_amount(ANCHOR_ASSET, key.1, repayable) is Ok
        &&& self.equivalent_amount(ANCHOR_ASSET, key.2, loan.collateral_balance) is Ok
    }
}

/// The collateral factor and the liquidation threshold that the
/// loan-to-value figures of an account report are the lowest among the pools
/// of its loans: neither is above that of the pool of any loan that counts.
pub proof fn lemma_ltv_factors_are_lowest(
    state: State,
    account: AccountId,
    now: Timestamp,
    n: nat,
    i: int,
)
    requires
        0 <= i < n <= state.borrows.len(),
        state.loan_counts(i, account, now),
    ensures
        state.ltv_totals(account, now, n).min_collateral_factor.parts <= state.pool(
            state.borrows[i].0.1,
        ).unwrap().collateral_factor.parts,
        state.ltv_totals(account, now, n).min_liquidation_threshold.parts <= state.pool(
            state.borrows[i].0.1,
        ).unwrap().liquidation_threshold.parts,
    decreases n,
{
    lemma_ltv_factors_fall(state, account, now, n);
    if i < n - 1 {
        lemma_ltv_factors_are_lowest(state, account, now, (n - 1) as nat, i);
    }
}

/// Taking one more loan in never raises the two factors.
proof fn lemma_ltv_factors_fall(state: State, account: AccountId, now: Timestamp, n: nat)
    requires
        0 < n <= state.borrows.len(),
    ensures
        state.ltv_totals(account, now, n).min_collateral_factor.parts <= state.ltv_totals(
            account,
            now,
            (n - 1) as nat,
        ).min_collateral_factor.parts,
        state.ltv_totals(account, now, n).min_liquidation_threshold.parts <= state.ltv_totals(
            account,
            now,
            (n - 1) as nat,
        ).min_liquidation_threshold.parts,
{
}

/// Each of the two factors that the loan-to-value figures report is one
/// whole, or the factor of the pool of a loan that counts.
pub proof fn lemma_ltv_factors_are_attained(
    state: State,
    account: AccountId,
    now: Timestamp,
    n: nat,
)
    requires
        n <= state.borrows.len(),
    ensures
        state.ltv_totals(account, now, n).min_collateral_factor.parts == RATIO_ACCURACY || exists|
            i: int,
        |
            0 <= i < n && #[trigger] state.loan_counts(i, account, now) && state.pool(
                state.borrows[i].0.1,
            ).unwrap().collateral_factor == state.ltv_totals(
                account,
                now,
                n,
            ).min_collateral_factor,
        state.ltv_totals(account, now, n).min_liquidation_threshold.parts == RATIO_ACCURACY
            || exists|i: int|
            0 <= i < n && #[trigger] state.loan_counts(i, account, now) && state.pool(
                state.borrows[i].0.1,
            ).unwrap().liquidation_threshold == state.ltv_totals(
                account,
                now,
                n,
            ).min_liquidation_threshold,
    decreases n,
{
    if n > 0 {
        lemma_ltv_factors_are_attained(state, account, now, (n - 1) as nat);
        let before = state.ltv_totals(account, now, (n - 1) as nat);
        let after = state.ltv_totals(account, now, n);
        if after.min_collateral_factor != before.min_collateral_factor {
            assert(state.loan_counts(n - 1, account, now));
        }
        if after.min_liquidation_threshold != before.min_liquidation_threshold {
            assert(state.loan_counts(n - 1, account, now));
        }
    }
}

/// A price of one between two assets, in either direction, makes an amount
/// of the one worth the same amount of the other.
pub proof fn lemma_even_price(
    state: State,
    asset: AssetId,
    collateral_asset: AssetId,
    collateral_balance: Balance,
)
    requires
        state.price(collateral_asset, asset) == Some(Rate { inner: ACCURACY }) || (state.price(
            collateral_asset,
            asset,
        ).is_none() && state.price(asset, collateral_asset) == Some(Rate { inner: ACCURACY })),
    ensures
        state.equivalent_amount(asset, collateral_asset, collateral_balance) == Ok::<
            Balance,
            Error,
        >(collateral_balance),
{
    let c = collateral_balance as int;
    assert(mul_raw(ACCURACY as int, c) == c) by (nonlinear_arith);
    assert(div_raw(c, ACCURACY as int) == c) by (nonlinear_arith);
}

/// The boundary of borrowing: against collateral of even price, a pool with
/// a collateral factor of one half lends up to half the collateral and no
/// more.
///
/// For a borrow that is in order up to the test of the collateral, an amount
/// above half the collateral is refused for want of collateral, and an
/// amount up to half of it is not. The latter goes through where the loan is
/// the borrower's first on these assets, the pool's borrow index is at least
/// one, its loans have room for the amount, and the collateral is no more
/// than a loan can hold.
pub proof fn lemma_borrow_boundary(
    state: State,
    tokens: &TokenView,
    who: AccountId,
    asset: AssetId,
    balance: Balance,
    collateral_asset: AssetId,
    collateral_balance: Balance,
    now: Timestamp,
)
    requires
        state.wf(),
        balance > 0,
        collateral_balance > 0,
        state.pool(asset) matches Some(stored) && stored.activated && stored.reserve_balance
            >= balance && stored.collateral_factor == (Ratio { parts: 500_000 }) && stored.accrued(
            now,
        ) is Ok,
        tokens.spec_reducible(collateral_asset, who) >= collateral_balance,
        state.price(collateral_asset, asset) == Some(Rate { inner: ACCURACY }) || (state.price(
            collateral_asset,
            asset,
        ).is_none() && state.price(asset, collateral_asset) == Some(Rate { inner: ACCURACY })),
    ensures
        2 * balance > collateral_balance ==> state.borrowed(
            tokens,
            who,
            asset,
            balance,
            collateral_asset,
            collateral_balance,
            now,
        ) == Err::<Step, Error>(Error::NotEnoughCollateral),
        2 * balance <= collateral_balance ==> state.borrowed(
            tokens,
            who,
            asset,
            balance,
            collateral_asset,
            collateral_balance,
            now,
        ) != Err::<Step, Error>(Error::NotEnoughCollateral),
        2 * balance <= collateral_balance && state.loan(who, asset, collateral_asset).is_none()
            && state.pool(asset).unwrap().accrued(now).unwrap().borrow_index.inner >= ACCURACY
            && state.pool(asset).unwrap().borrowed_balance + balance <= u128::MAX
            && collateral_balance * ACCURACY <= u128::MAX ==> state.borrowed(
            tokens,
            who,
            asset,
            balance,
            collateral_asset,
            collateral_balance,
            now,
        ) is Ok,
{
    lemma_even_price(state, asset, collateral_asset, collateral_balance);
    let pool = state.pool(asset).unwrap().accrued(now).unwrap();
    let c = collateral_balance as int;
    assert(rate_of(pool.collateral_factor).inner == 500_000_000_000_000_000);
    assert(mul_raw(c, 500_000_000_000_000_000) == c / 2) by (nonlinear_arith)
        requires
            0 <= c,
    ;
    assert(pool.max_borrow_spec(collateral_balance) == Ok::<Balance, Error>((c / 2) as u128));
    if 2 * balance <= collateral_balance && pool.borrow_index.inner >= ACCURACY {
        let b = balance as int;
        let index = pool.borrow_index.inner as int;
        assert(div_raw(b, index) <= b) by (nonlinear_arith)
            requires
                0 <= b,
                1_000_000_000_000_000_000 <= index,
        ;
    }
}

/// After a borrow the loan on record can be repaid: its balances can be read
/// on the scale of rates, and at the index that it was recorded at, what is
/// owed on it is its scaled balance.
///
/// For the borrower's first loan on these assets that index is the pool's
/// own, so what is owed right after the borrow can be worked out.
pub proof fn lemma_borrowed_loan_is_repayable(
    state: State,
    tokens: &TokenView,
    who: AccountId,
    asset: AssetId,
    balance: Balance,
    collateral_asset: AssetId,
    collateral_balance: Balance,
    now: Timestamp,
)
    requires
        state.wf(),
        state.borrowed(tokens, who, asset, balance, collateral_asset, collateral_balance, now)
            is Ok,
    ensures
        ({
            let next = state.borrowed(
                tokens,
                who,
                asset,
                balance,
                collateral_asset,
                collateral_balance,
                now,
            ).unwrap().state;
            let loan = next.loan(who, asset, collateral_asset).unwrap();
            let pool = next.pool(asset).unwrap();
            &&& next.loan(who, asset, collateral_asset) is Some
            &&& next.pool(asset) is Some
            &&& loan_can_be_worked(loan)
            &&& loan.borrow_index_at_borrow_time.inner != 0 ==> (LendingPool {
                borrow_index: loan.borrow_index_at_borrow_time,
                ..pool
            }).repayable_spec(loan) == Ok::<Balance, Error>(loan.borrowed_balance)
            &&& state.loan(who, asset, collateral_asset).is_none() ==> pool.borrow_index
                == loan.borrow_index_at_borrow_time && pool.repayable_spec(loan) == Ok::<
                Balance,
                Error,
            >(loan.borrowed_balance)
        }),
{
    let step = state.borrowed(
        tokens,
        who,
        asset,
        balance,
        collateral_asset,
        collateral_balance,
        now,
    ).unwrap();
    let accrued = state.pool(asset).unwrap().accrued(now).unwrap();
    let scaled = accrued.scaled_borrow_spec(balance).unwrap();
    let fresh = UserBorrow {
        borrowed_asset: asset,
        borrowed_balance: scaled,
        collateral_asset,
        collateral_balance,
        borrow_index_at_borrow_time: accrued.borrow_index,
    };
    let loan = state.loan_after_borrow(who, fresh).unwrap();
    let key = (who, asset, collateral_asset);
    lemma_put(state.borrows, key, loan);
    lemma_put(state.pools, asset, accrued.after_borrow(balance));
    if loan.borrow_index_at_borrow_time.inner != 0 {
        lemma_owed_at_own_index(
            loan.borrow_index_at_borrow_time.inner as int,
            loan.borrowed_balance as int,
        );
    }
}

/// At the index that a loan was recorded at, the ratio of the indexes is one
/// and what is owed is the scaled balance.
pub proof fn lemma_owed_at_own_index(index: int, scaled: int)
    requires
        0 < index <= u128::MAX,
        0 <= scaled,
        scaled * ACCURACY <= u128::MAX,
    ensures
        div_raw(index, index) == ACCURACY,
        mul_raw(ACCURACY as int, scaled * ACCURACY) == scaled * ACCURACY,
        (scaled * ACCURACY) / (ACCURACY as int) == scaled,
{
    assert(index * 1_000_000_000_000_000_000 / index == 1_000_000_000_000_000_000)
        by (nonlinear_arith)
        requires
            0 < index,
    ;
    let whole = scaled * 1_000_000_000_000_000_000;
    assert(1_000_000_000_000_000_000 * whole / 1_000_000_000_000_000_000 == whole)
        by (nonlinear_arith);
    assert(scaled * 1_000_000_000_000_000_000 / 1_000_000_000_000_000_000 == scaled)
        by (nonlinear_arith);
}

/// A partial repayment goes through and releases the paid fraction of the
/// collateral, within rounding.
///
/// Let less than is owed be paid on a loan of a sound ledger, from a pool
/// that accrues, carries at least the loan's balance among its loans and has
/// room for the payment. Then the repayment
/// succeeds and the loan stays. Its collateral falls by what is released,
/// its balance by the reduction, and each of the two is the fraction
/// `paid / owed` of the whole, rounded down twice: not above
/// `paid * whole / owed`, and short of it by less than
/// `1 + whole / 10^18`.
pub proof fn lemma_partial_repay_is_proportional(
    state: State,
    who: AccountId,
    asset: AssetId,
    balance: Balance,
    collateral_asset: AssetId,
    now: Timestamp,
)
    requires
        state.wf(),
        0 < balance,
        state.pool(asset) matches Some(stored) && stored.accrued(now) matches Ok(pool)
            && state.loan(who, asset, collateral_asset) matches Some(loan) && pool.repayable_spec(
            loan,
        ) matches Ok(owed) && balance < owed && loan.borrowed_balance <= pool.borrowed_balance
            && pool.reserve_balance + balance <= u128::MAX,
        state.sound(),
    ensures
        state.repaid(who, asset, balance, collateral_asset, now) is Ok,
        ({
            let step = state.repaid(who, asset, balance, collateral_asset, now).unwrap();
            let loan = state.loan(who, asset, collateral_asset).unwrap();
            let owed = state.pool(asset).unwrap().accrued(now).unwrap().repayable_spec(
                loan,
            ).unwrap();
            let kept = step.state.loan(who, asset, collateral_asset).unwrap();
            let released = loan.collateral_balance - kept.collateral_balance;
            let reduction = loan.borrowed_balance - kept.borrowed_balance;
            &&& step.state.loan(who, asset, collateral_asset) is Some
            &&& step.calls[0] matches TokenCall::Transfer { asset: paid_asset, amount: paid, .. }
                && paid_asset == asset && paid == balance
            &&& step.calls[1] matches TokenCall::Transfer { asset: a, dest, amount, .. } && a
                == collateral_asset && dest == who && amount == released
            &&& 0 <= released
            &&& released * owed <= balance * loan.collateral_balance
            &&& balance * loan.collateral_balance * ACCURACY < (released + 1) * owed * ACCURACY
                + loan.collateral_balance * owed
            &&& 0 <= reduction
            &&& reduction * owed <= balance * loan.borrowed_balance
            &&& balance * loan.borrowed_balance * ACCURACY < (reduction + 1) * owed * ACCURACY
                + loan.borrowed_balance * owed
        }),
{
    let loan = state.loan(who, asset, collateral_asset).unwrap();
    assert(has_key(state.borrows, (who, asset, collateral_asset)));
    let pool = state.pool(asset).unwrap().accrued(now).unwrap();
    let owed = pool.repayable_spec(loan).unwrap();
    lemma_fraction_of(balance as int, owed as int, loan.collateral_balance as int);
    lemma_fraction_of(balance as int, owed as int, loan.borrowed_balance as int);
    let ratio = Rate { inner: div_raw(balance as int, owed as int) as u128 };
    let reduction = scale_amount(ratio, loan.borrowed_balance).unwrap();
    let release = scale_amount(ratio, loan.collateral_balance).unwrap();
    let kept = UserBorrow {
        borrowed_balance: (loan.borrowed_balance - reduction) as u128,
        collateral_balance: (loan.collateral_balance - release) as u128,
        ..loan
    };
    lemma_put(state.borrows, (who, asset, collateral_asset), kept);
}

/// The fraction `paid / owed` of `whole`, worked out as the ledger does it,
/// is that fraction rounded down twice. It is not above the whole where no
/// more than is owed is paid, and the whole itself where all is paid.
pub proof fn lemma_fraction_of(paid: int, owed: int, whole: int)
    requires
        0 <= paid,
        0 < owed,
        0 <= whole,
    ensures
        ({
            let ratio = div_raw(paid, owed);
            let part = mul_raw(ratio, whole * ACCURACY) / (ACCURACY as int);
            &&& 0 <= ratio
            &&& mul_raw(ratio, whole * ACCURACY) == ratio * whole
            &&& 0 <= part
            &&& part * owed <= paid * whole
            &&& paid * whole * ACCURACY < (part + 1) * owed * ACCURACY + whole * owed
            &&& paid <= owed ==> ratio <= ACCURACY && ratio * whole <= whole * ACCURACY && part
                <= whole
            &&& paid == owed ==> ratio == ACCURACY && part == whole
        }),
{
    let unit = ACCURACY as int;
    let r = div_raw(paid, owed);
    let p = mul_raw(r, whole * unit);
    let part = p / unit;
    assert(0 <= paid * unit) by (nonlinear_arith)
        requires
            0 <= paid,
            unit == 1_000_000_000_000_000_000,
    ;
    assert(r == (paid * unit) / owed);
    assert(0 <= r && r * owed <= paid * unit && paid * unit < (r + 1) * owed) by {
        vstd::arithmetic::div_mod::lemma_fundamental_div_mod(paid * unit, owed);
        vstd::arithmetic::div_mod::lemma_mod_bound(paid * unit, owed);
        vstd::arithmetic::div_mod::lemma_div_pos_is_pos(paid * unit, owed);
        assert(owed * r == r * owed) by (nonlinear_arith);
        assert((r + 1) * owed == r * owed + owed) by (nonlinear_arith);
    }
    assert(p == r * whole) by {
        assert(r * (whole * unit) == (r * whole) * unit) by (nonlinear_arith);
        vstd::arithmetic::div_mod::lemma_div_by_multiple(r * whole, unit);
    }
    assert(0 <= r * whole) by (nonlinear_arith)
        requires
            0 <= r,
            0 <= whole,
    ;
    assert(0 <= part && part * unit <= r * whole && r * whole < (part + 1) * unit) by {
        vstd::arithmetic::div_mod::lemma_fundamental_div_mod(r * whole, unit);
        vstd::arithmetic::div_mod::lemma_mod_bound(r * whole, unit);
        vstd::arithmetic::div_mod::lemma_div_pos_is_pos(r * whole, unit);
        assert(unit * part == part * unit) by (nonlinear_arith);
        assert((part + 1) * unit == part * unit + unit) by (nonlinear_arith);
    }
    assert(part * owed * unit <= paid * whole * unit) by (nonlinear_arith)
        requires
            part * unit <= r * whole,
            r * owed <= paid * unit,
            0 <= whole,
            0 < owed,
            0 <= part,
            0 <= r,
    ;
    assert(part * owed <= paid * whole) by (nonlinear_arith)
        requires
            part * owed * unit <= paid * whole * unit,
            unit == 1_000_000_000_000_000_000,
    ;
    assert(paid * whole * unit < (part + 1) * owed * unit + whole * owed) by (nonlinear_arith)
        requires
            paid * unit < (r + 1) * owed,
            r * whole < (part + 1) * unit,
            0 <= whole,
            0 < owed,
            0 <= r,
    ;
    if paid <= owed {
        assert(r <= unit) by (nonlinear_arith)
            requires
                r * owed <= paid * unit,
                paid <= owed,
                0 < owed,
                0 <= r,
                unit == 1_000_000_000_000_000_000,
        ;
        assert(r * whole <= whole * unit) by (nonlinear_arith)
            requires
                0 <= r <= unit,
                0 <= whole,
        ;
        assert(part <= whole) by (nonlinear_arith)
            requires
                part * unit <= r * whole,
                r * whole <= whole * unit,
                unit == 1_000_000_000_000_000_000,
        ;
    }
    if paid == owed {
        assert(r == unit) by (nonlinear_arith)
            requires
                r == (owed * unit) / owed,
                0 < owed,
        ;
        assert(part == whole) by (nonlinear_arith)
            requires
                part == (unit * whole) / unit,
                unit == 1_000_000_000_000_000_000,
        ;
    }
}

/// Conservation on repayment: a single loan that is repaid in full leaves
/// the reserve of its pool where it was before the loan, but for the
/// interest.
///
/// Let a borrower without a loan on these assets borrow `amount` in a sound
/// ledger, and later pay at least what is owed, `owed`, at a time at which
/// the pool accrues, something is owed and the reserve has room for it. Then the repayment succeeds, `owed` and no more
/// is paid, the loan is gone, all of its collateral is released, and the
/// reserve has fallen by `amount` and risen by `owed`. Where no interest
/// accrued in between and the borrow index was one, `owed` is `amount` and
/// the reserve is what it was.
pub proof fn lemma_full_repay_restores_reserve(
    state: State,
    tokens: &TokenView,
    who: AccountId,
    asset: AssetId,
    amount: Balance,
    collateral_asset: AssetId,
    collateral_balance: Balance,
    borrowed_at: Timestamp,
    payment: Balance,
    repaid_at: Timestamp,
)
    requires
        state.wf(),
        state.loan(who, asset, collateral_asset).is_none(),
        state.borrowed(
            tokens,
            who,
            asset,
            amount,
            collateral_asset,
            collateral_balance,
            borrowed_at,
        ) matches Ok(lent) && lent.state.pool(asset).unwrap().accrued(repaid_at) matches Ok(later)
            && later.repayable_spec(lent.state.loan(who, asset, collateral_asset).unwrap())
            matches Ok(owed) && 0 < owed && owed <= payment && later.reserve_balance + owed
            <= u128::MAX,
        state.sound(),
    ensures
        ({
            let lent = state.borrowed(
                tokens,
                who,
                asset,
                amount,
                collateral_asset,
                collateral_balance,
                borrowed_at,
            ).unwrap();
            let owed = owed_after_borrow(
                state,
                tokens,
                who,
                asset,
                amount,
                collateral_asset,
                collateral_balance,
                borrowed_at,
                repaid_at,
            );
            let settled = lent.state.repaid(
                who,
                asset,
                payment,
                collateral_asset,
                repaid_at,
            ).unwrap();
            &&& lent.state.repaid(who, asset, payment, collateral_asset, repaid_at) is Ok
            &&& settled.state.loan(who, asset, collateral_asset).is_none()
            &&& settled.state.pool(asset).unwrap().reserve_balance == state.pool(
                asset,
            ).unwrap().reserve_balance - amount + owed
            &&& settled.calls[0] matches TokenCall::Transfer { asset: paid_asset, amount: paid, .. }
                && paid_asset == asset && paid == owed
            &&& settled.calls[1] matches TokenCall::Transfer {
                asset: released_asset,
                dest,
                amount: released,
                ..
            } && released_asset == collateral_asset && dest == who && released
                == collateral_balance
            &&& lent.state.pool(asset).unwrap().borrow_index.inner == ACCURACY && lent.state.pool(
                asset,
            ).unwrap().last_accrued_interest_at >= repaid_at ==> owed == amount
                && settled.state.pool(asset).unwrap().reserve_balance == state.pool(
                asset,
            ).unwrap().reserve_balance
        }),
{
    let lent = state.borrowed(
        tokens,
        who,
        asset,
        amount,
        collateral_asset,
        collateral_balance,
        borrowed_at,
    ).unwrap();
    assert(has_key(state.pools, asset));
    lemma_accrued_keeps_indexes(state.pool(asset).unwrap(), borrowed_at);
    let pool = state.pool(asset).unwrap().accrued(borrowed_at).unwrap();
    let scaled = pool.scaled_borrow_spec(amount).unwrap();
    let loan = UserBorrow {
        borrowed_asset: asset,
        borrowed_balance: scaled,
        collateral_asset,
        collateral_balance,
        borrow_index_at_borrow_time: pool.borrow_index,
    };
    let key = (who, asset, collateral_asset);
    lemma_put(state.borrows, key, loan);
    lemma_put(state.pools, asset, pool.after_borrow(amount));
    assert(lent.state.loan(who, asset, collateral_asset) == Some(loan));
    assert(lent.state.pool(asset) == Some(pool.after_borrow(amount)));
    let later = pool.after_borrow(amount).accrued(repaid_at).unwrap();
    lemma_accrued_keeps_indexes(pool.after_borrow(amount), repaid_at);
    let owed = later.repayable_spec(loan).unwrap();
    lemma_fraction_of(owed as int, owed as int, scaled as int);
    lemma_fraction_of(owed as int, owed as int, collateral_balance as int);
    let a = amount as int;
    let index = pool.borrow_index.inner as int;
    assert(div_raw(a, index) <= a) by (nonlinear_arith)
        requires
            0 <= a,
            1_000_000_000_000_000_000 <= index,
    ;
    lemma_without(lent.state.borrows, key);
    lemma_put(lent.state.pools, asset, later.after_repay(owed, scaled));
    if pool.borrow_index.inner == ACCURACY && pool.after_borrow(amount).last_accrued_interest_at
        >= repaid_at {
        assert(div_raw(a, ACCURACY as int) == a) by (nonlinear_arith);
        lemma_owed_at_own_index(ACCURACY as int, a);
    }
}

/// What is owed at `repaid_at` on the loan that `who` took at `borrowed_at`
/// as its first on these assets.
pub open spec fn owed_after_borrow(
    state: State,
    tokens: &TokenView,
    who: AccountId,
    asset: AssetId,
    amount: Balance,
    collateral_asset: AssetId,
    collateral_balance: Balance,
    borrowed_at: Timestamp,
    repaid_at: Timestamp,
) -> Balance {
    let lent = state.borrowed(
        tokens,
        who,
        asset,
        amount,
        collateral_asset,
        collateral_balance,
        borrowed_at,
    ).unwrap().state;
    lent.pool(asset).unwrap().accrued(repaid_at).unwrap().repayable_spec(
        lent.loan(who, asset, collateral_asset).unwrap(),
    ).unwrap()
}

/// The two factors of an account with two loans: where exactly two loans
/// count towards the figures of an account, the collateral factor reported
/// is the lower of the factors of their two pools, and so is the
/// liquidation threshold.
pub proof fn lemma_ltv_of_two_loans(
    state: State,
    account: AccountId,
    now: Timestamp,
    i: int,
    j: int,
)
    requires
        0 <= i < j < state.borrows.len(),
        state.loan_counts(i, account, now),
        state.loan_counts(j, account, now),
        forall|k: int|
            0 <= k < state.borrows.len() && k != i && k != j ==> !#[trigger] state.loan_counts(
                k,
                account,
                now,
            ),
        state.pool(state.borrows[i].0.1).unwrap().collateral_factor.parts <= RATIO_ACCURACY,
        state.pool(state.borrows[j].0.1).unwrap().collateral_factor.parts <= RATIO_ACCURACY,
        state.pool(state.borrows[i].0.1).unwrap().liquidation_threshold.parts <= RATIO_ACCURACY,
        state.pool(state.borrows[j].0.1).unwrap().liquidation_threshold.parts <= RATIO_ACCURACY,
    ensures
        state.user_ltv(account, now).1 == rate_of(
            lower_ratio(
                state.pool(state.borrows[i].0.1).unwrap().collateral_factor,
                state.pool(state.borrows[j].0.1).unwrap().collateral_factor,
            ),
        ),
        state.user_ltv(account, now).2 == rate_of(
            lower_ratio(
                state.pool(state.borrows[i].0.1).unwrap().liquidation_threshold,
                state.pool(state.borrows[j].0.1).unwrap().liquidation_threshold,
            ),
        ),
{
    let n = state.borrows.len();
    lemma_ltv_factors_are_lowest(state, account, now, n, i);
    lemma_ltv_factors_are_lowest(state, account, now, n, j);
    lemma_ltv_factors_are_attained(state, account, now, n);
}

} // verus!
