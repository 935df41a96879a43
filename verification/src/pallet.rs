//! The ledger: pools, loans, prices and the operations on them.

use crate::borrow_repay::UserBorrow;
use crate::fixed::{Rate, Ratio};
use crate::laws::{lemma_operations_keep_sound, lemma_token_operations_keep_sound};
use crate::pool::{multiply_amount, scale_amount, LendingPool};
use crate::state::{
    asset_price_spec, indexes_kept, lemma_indexes_kept_put, lemma_indexes_kept_same,
    lemma_pow10_grows, pow10, LtvTotals, State,
};
use crate::storage::{put, Table};
use crate::tokens::{Preservation, TokenCall, TokenView};
use crate::types::{AccountId, AssetId, Balance, Error, Timestamp, ANCHOR_ASSET};
use vstd::prelude::*;

verus! {

/// The key of a pool: the asset that it lends.
#[derive(Clone, Copy, Debug, PartialEq, Eq, Structural)]
pub struct AssetPool {
    pub asset: AssetId,
}

impl AssetPool {
    pub fn from(asset: AssetId) -> (r: AssetPool)
        ensures
            r.asset == asset,
    {
        AssetPool { asset }
    }
}

/// The supply index that an account last minted shares at.
#[derive(Clone, Copy, Debug, PartialEq, Eq, Structural)]
pub struct SupplyIndex {
    pub supply_index: Rate,
    pub last_accrued_interest_at: Timestamp,
}

impl SupplyIndex {
    pub fn from(supply_index: Rate, last_accrued_interest_at: Timestamp) -> (r: SupplyIndex)
        ensures
            r == (SupplyIndex { supply_index, last_accrued_interest_at }),
    {
        SupplyIndex { supply_index, last_accrued_interest_at }
    }
}

/// The key of a loan: borrower, borrowed asset, collateral asset.
pub type LoanKey = (AccountId, AssetId, AssetId);

/// Ten to the power `n`, or `None` where that exceeds `u128`.
pub fn checked_pow10(n: u8) -> (r: Option<u128>)
    ensures
        pow10(n as nat) <= u128::MAX ==> r == Some(pow10(n as nat) as u128),
        pow10(n as nat) > u128::MAX ==> r.is_none(),
{
    let mut power: u128 = 1;
    let mut i: u8 = 0;
    while i < n
        invariant
            i <= n,
            power == pow10(i as nat),
        decreases n - i,
    {
        proof {
            lemma_pow10_grows((i + 1) as nat, n as nat);
        }
        power = match power.checked_mul(10) {
            Some(v) => v,
            None => {
                return None;
            },
        };
        i += 1;
    }
    Some(power)
}

/// The ledger.
pub struct Pallet {
    custody: AccountId,
    pools: Table<AssetId, LendingPool>,
    borrows: Table<LoanKey, UserBorrow>,
    prices: Table<(AssetId, AssetId), Rate>,
    supply_indexes: Table<(AccountId, AssetId), SupplyIndex>,
}

impl View for Pallet {
    type V = State;

    closed spec fn view(&self) -> State {
        State {
            custody: self.custody,
            pools: self.pools@,
            borrows: self.borrows@,
            prices: self.prices@,
            supply_indexes: self.supply_indexes@,
        }
    }
}

impl Pallet {
    /// An empty ledger whose tokens are kept by `custody`.
    pub fn new(custody: AccountId) -> (r: Pallet)
        ensures
            r@ == (State {
                custody,
                pools: Seq::empty(),
                borrows: Seq::empty(),
                prices: Seq::empty(),
                supply_indexes: Seq::empty(),
            }),
            r@.wf(),
            r@.sound(),
    {
        Pallet {
            custody,
            pools: Table::new(),
            borrows: Table::new(),
            prices: Table::new(),
            supply_indexes: Table::new(),
        }
    }

    /// The account that keeps the pools' tokens. No table of a ledger holds a
    /// key twice.
    pub fn account_id(&self) -> (r: AccountId)
        ensures
            r == self@.custody,
            self@.wf(),
    {
        let _ = self.pools.len();
        let _ = self.borrows.len();
        let _ = self.prices.len();
        let _ = self.supply_indexes.len();
        self.custody
    }

    /// The pool of an asset.
    pub fn reserve_pools(&self, asset_pool: AssetPool) -> (r: Option<LendingPool>)
        ensures
            r == self@.pool(asset_pool.asset),
    {
        match self.pools.get(&asset_pool.asset) {
            Some(pool) => Some(*pool),
            None => None,
        }
    }

    /// The loan of `who` in `asset` against `collateral_asset`.
    pub fn borrow_of(&self, who: AccountId, asset: AssetId, collateral_asset: AssetId) -> (r:
        Option<UserBorrow>)
        ensures
            r == self@.loan(who, asset, collateral_asset),
    {
        match self.borrows.get(&(who, asset, collateral_asset)) {
            Some(loan) => Some(*loan),
            None => None,
        }
    }

    /// Sets the price of one unit of `asset_1` in units of `asset_2`. A price
    /// of zero is refused.
    pub fn set_asset_price(&mut self, asset_1: AssetId, asset_2: AssetId, price: Rate) -> (r:
        Result<(), Error>)
        ensures
            price.inner == 0 ==> r == Err::<(), Error>(Error::InvalidAssetPrice) && final(self)@
                == old(self)@,
            price.inner != 0 ==> r == Ok::<(), Error>(()) && final(self)@ == (State {
                prices: put(old(self)@.prices, (asset_1, asset_2), price),
                ..old(self)@
            }),
            indexes_kept(old(self)@, final(self)@),
            old(self)@.sound() ==> final(self)@.sound(),
            final(self)@.wf(),
    {
        let _ = self.account_id();
        if price.inner == 0 {
            return Err(Error::InvalidAssetPrice);
        }
        self.prices.insert((asset_1, asset_2), price);
        Ok(())
    }

    /// Returns the amount of `asset` that `collateral_balance` of
    /// `collateral_asset` is worth.
    ///
    /// Where the price of the collateral asset in the asset is set, the
    /// amount is `price * collateral_balance`; else, where the price of the
    /// asset in the collateral asset is set, it is
    /// `collateral_balance / price`; else both prices in the anchor asset are
    /// needed, and the amount is
    /// `collateral_price / asset_price * collateral_balance`.
    pub fn get_equivalent_asset_amount(
        &self,
        asset: AssetId,
        collateral_asset: AssetId,
        collateral_balance: Balance,
    ) -> (r: Result<Balance, Error>)
        ensures
            r == self@.equivalent_amount(asset, collateral_asset, collateral_balance),
    {
        let amount = Rate::from_inner(collateral_balance);
        let product = if let Some(p) = self.prices.get(&(collateral_asset, asset)) {
            p.checked_mul(&amount)
        } else if let Some(p) = self.prices.get(&(asset, collateral_asset)) {
            amount.checked_div(p)
        } else {
            let asset_price = match self.prices.get(&(asset, ANCHOR_ASSET)) {
                Some(p) => *p,
                None => {
                    return Err(Error::AssetPriceNotSet);
                },
            };
            let collateral_price = match self.prices.get(&(collateral_asset, ANCHOR_ASSET)) {
                Some(p) => *p,
                None => {
                    return Err(Error::AssetPriceNotSet);
                },
            };
            match collateral_price.checked_div(&asset_price) {
                Some(cross) => cross.checked_mul(&amount),
                None => {
                    return Err(Error::OverflowError);
                },
            }
        };
        match product {
            Some(v) => Ok(v.into_inner()),
            None => Err(Error::OverflowError),
        }
    }

    /// Retrieves the price of `asset` relative to `base_asset`.
    pub fn get_asset_price(&self, tokens: &TokenView, asset: AssetId, base_asset: AssetId) -> (r:
        Result<Rate, Error>)
        ensures
            r == asset_price_spec(self@, tokens, asset, base_asset),
    {
        if let Some(p) = self.prices.get(&(asset, base_asset)) {
            let decimals = tokens.decimals(base_asset);
            let divisor = match checked_pow10(decimals) {
                Some(v) => v,
                None => {
                    return Err(Error::OverflowError);
                },
            };
            let scale = match Rate::checked_from_integer(divisor) {
                Some(v) => v,
                None => {
                    return Err(Error::OverflowError);
                },
            };
            match p.checked_div(&scale) {
                Some(price) => Ok(price),
                None => Err(Error::DivisionByZero),
            }
        } else {
            let asset_usdt_price = match self.prices.get(&(asset, ANCHOR_ASSET)) {
                Some(p) => *p,
                None => {
                    return Err(Error::AssetPriceNotSet);
                },
            };
            let base_asset_usdt_price = match self.prices.get(&(base_asset, ANCHOR_ASSET)) {
                Some(p) => *p,
                None => {
                    return Err(Error::AssetPriceNotSet);
                },
            };
            match asset_usdt_price.checked_div(&base_asset_usdt_price) {
                Some(price) => Ok(price),
                None => Err(Error::DivisionByZero),
            }
        }
    }

    /// Estimates the collateral in `collateral_asset` that a loan of
    /// `borrow_amount` of `borrow_asset` needs.
    pub fn estimate_collateral_amount(
        &self,
        borrow_asset: AssetId,
        borrow_amount: Balance,
        collateral_asset: AssetId,
    ) -> (r: Result<Balance, Error>)
        ensures
            r == self@.collateral_estimate(borrow_asset, borrow_amount, collateral_asset),
    {
        let pool = match self.pools.get(&borrow_asset) {
            Some(p) => *p,
            None => {
                return Err(Error::LendingPoolDoesNotExist);
            },
        };
        let worth = match self.get_equivalent_asset_amount(
            collateral_asset,
            borrow_asset,
            borrow_amount,
        ) {
            Ok(v) => v,
            Err(e) => {
                return Err(e);
            },
        };
        match Rate::from_inner(worth).checked_div(&Rate::from_ratio(pool.collateral_factor)) {
            Some(v) => Ok(v.into_inner()),
            None => Err(Error::OverflowError),
        }
    }

    /// Activates the pool of `asset`, which must exist, be pending and hold a
    /// reserve. From then on it takes deposits and lends.
    pub fn do_activate_lending_pool(&mut self, asset: AssetId) -> (r: Result<(), Error>)
        ensures
            match old(self)@.activated(asset) {
                Ok(next) => r == Ok::<(), Error>(()) && final(self)@ == next,
                Err(e) => r == Err::<(), Error>(e) && final(self)@ == old(self)@,
            },
            indexes_kept(old(self)@, final(self)@),
            old(self)@.sound() ==> final(self)@.sound(),
            final(self)@.wf(),
    {
        let _ = self.account_id();
        proof {
            if self@.sound() {
                lemma_operations_keep_sound(self@, 0, asset, 0, 0, 0);
            }
        }
        let mut pool = match self.pools.get(&asset) {
            Some(p) => *p,
            None => {
                proof {
                    lemma_indexes_kept_same(self@);
                }
                return Err(Error::LendingPoolDoesNotExist);
            },
        };
        proof {
            lemma_indexes_kept_same(self@);
            lemma_indexes_kept_put(self@, asset, LendingPool { activated: true, ..pool });
        }
        if pool.is_active() {
            return Err(Error::LendingPoolAlreadyActivated);
        }
        if pool.is_empty() {
            return Err(Error::LendingPoolIsEmpty);
        }
        pool.activated = true;
        self.pools.insert(asset, pool);
        Ok(())
    }

    /// Deactivates the pool of `asset`, which must exist and be active.
    pub fn do_deactivate_lending_pool(&mut self, asset: AssetId) -> (r: Result<(), Error>)
        ensures
            match old(self)@.deactivated(asset) {
                Ok(next) => r == Ok::<(), Error>(()) && final(self)@ == next,
                Err(e) => r == Err::<(), Error>(e) && final(self)@ == old(self)@,
            },
            indexes_kept(old(self)@, final(self)@),
            old(self)@.sound() ==> final(self)@.sound(),
            final(self)@.wf(),
    {
        let _ = self.account_id();
        proof {
            if self@.sound() {
                lemma_operations_keep_sound(self@, 0, asset, 0, 0, 0);
            }
        }
        let mut pool = match self.pools.get(&asset) {
            Some(p) => *p,
            None => {
                proof {
                    lemma_indexes_kept_same(self@);
                }
                return Err(Error::LendingPoolDoesNotExist);
            },
        };
        proof {
            lemma_indexes_kept_same(self@);
            lemma_indexes_kept_put(self@, asset, LendingPool { activated: false, ..pool });
        }
        if !pool.is_active() {
            return Err(Error::LendingPoolAlreadyDeactivated);
        }
        pool.activated = false;
        self.pools.insert(asset, pool);
        Ok(())
    }

    /// Works out the shares to mint to `who` for a deposit worth
    /// `scaled_balance` shares, interest on the shares already held
    /// included, and notes the supply index that they are minted at.
    pub fn update_and_mint(
        &mut self,
        tokens: &TokenView,
        who: AccountId,
        asset: AssetId,
        lp_id: AssetId,
        scaled_balance: Balance,
        current_supply_index: Rate,
        now: Timestamp,
    ) -> (r: Result<TokenCall, Error>)
        ensures
            match old(self)@.minted(
                tokens,
                who,
                asset,
                lp_id,
                scaled_balance,
                current_supply_index,
                now,
            ) {
                Ok(step) => r matches Ok(call) && seq![call] == step.calls && final(self)@
                    == step.state,
                Err(e) => r == Err::<TokenCall, Error>(e) && final(self)@ == old(self)@,
            },
            indexes_kept(old(self)@, final(self)@),
            old(self)@.sound() ==> final(self)@.sound(),
            final(self)@.wf(),
    {
        let _ = self.account_id();
        let stored = match self.supply_indexes.get(&(who, asset)) {
            Some(s) => s.supply_index,
            None => Rate::zero(),
        };
        let old_balance = tokens.balance(lp_id, who);
        let growth = match current_supply_index.checked_sub(&stored) {
            Some(v) => v,
            None => {
                return Err(Error::OverflowError);
            },
        };
        let interest_on_old_deposit = multiply_amount(growth, old_balance)?;
        let total_new_mint = match scaled_balance.checked_add(interest_on_old_deposit) {
            Some(v) => v,
            None => {
                return Err(Error::OverflowError);
            },
        };
        self.supply_indexes.insert((who, asset), SupplyIndex::from(current_supply_index, now));
        Ok(TokenCall::MintInto { asset: lp_id, who, amount: total_new_mint })
    }

    /// Creates the lending pool `id` of `asset` and supplies it with
    /// `balance` from `who`, who gets the first shares.
    ///
    /// The amount must be positive and covered by the balance of `who`, the
    /// asset must have no pool yet, and no asset may exist under `id`.
    pub fn do_create_lending_pool(
        &mut self,
        tokens: &TokenView,
        who: AccountId,
        id: AssetId,
        asset: AssetId,
        balance: Balance,
        now: Timestamp,
    ) -> (r: Result<Vec<TokenCall>, Error>)
        ensures
            match old(self)@.created(tokens, who, id, asset, balance, now) {
                Ok(step) => r matches Ok(calls) && calls@ == step.calls && final(self)@
                    == step.state,
                Err(e) => r == Err::<Vec<TokenCall>, Error>(e) && final(self)@ == old(self)@,
            },
            indexes_kept(old(self)@, final(self)@),
            old(self)@.sound() ==> final(self)@.sound(),
            final(self)@.wf(),
    {
        let custody = self.account_id();
        proof {
            if self@.sound() {
                lemma_token_operations_keep_sound(
                    self@,
                    tokens,
                    who,
                    id,
                    asset,
                    balance,
                    0,
                    0,
                    now,
                );
            }
            lemma_indexes_kept_same(self@);
        }
        if balance == 0 {
            return Err(Error::InvalidLiquiditySupply);
        }
        if tokens.balance(asset, who) < balance {
            return Err(Error::NotEnoughLiquiditySupply);
        }
        if self.pools.contains_key(&asset) {
            return Err(Error::LendingPoolAlreadyExists);
        }
        if tokens.asset_exists(id) {
            return Err(Error::IdAlreadyExists);
        }
        let lending_pool = LendingPool::from(id, asset, balance, now)?;
        let scaled_minted_tokens = lending_pool.scaled_supply_balance(balance)?;
        let mint = self.update_and_mint(
            tokens,
            who,
            asset,
            id,
            scaled_minted_tokens,
            lending_pool.supply_index,
            now,
        )?;
        proof {
            lemma_indexes_kept_put(self@, asset, lending_pool);
        }
        self.pools.insert(asset, lending_pool);
        let mut calls: Vec<TokenCall> = Vec::new();
        calls.push(
            TokenCall::Transfer {
                asset,
                source: who,
                dest: custody,
                amount: balance,
                preservation: Preservation::Expendable,
            },
        );
        calls.push(TokenCall::Create { id, admin: custody });
        calls.push(mint);
        proof {
            let step = old(self)@.created(tokens, who, id, asset, balance, now).unwrap();
            assert(calls@ =~= step.calls);
        }
        Ok(calls)
    }

    /// Supplies `balance` of `asset` from `who` to the asset's pool and mints
    /// shares in return. The pool must be active and the amount positive and
    /// covered by the balance of `who`.
    pub fn do_supply(
        &mut self,
        tokens: &TokenView,
        who: AccountId,
        asset: AssetId,
        balance: Balance,
        now: Timestamp,
    ) -> (r: Result<Vec<TokenCall>, Error>)
        ensures
            match old(self)@.supplied(tokens, who, asset, balance, now) {
                Ok(step) => r matches Ok(calls) && calls@ == step.calls && final(self)@
                    == step.state,
                Err(e) => r == Err::<Vec<TokenCall>, Error>(e) && final(self)@ == old(self)@,
            },
            indexes_kept(old(self)@, final(self)@),
            old(self)@.sound() ==> final(self)@.sound(),
            final(self)@.wf(),
    {
        let custody = self.account_id();
        proof {
            if self@.sound() {
                lemma_token_operations_keep_sound(
                    self@,
                    tokens,
                    who,
                    0,
                    asset,
                    balance,
                    0,
                    0,
                    now,
                );
            }
            lemma_indexes_kept_same(self@);
        }
        if balance == 0 {
            return Err(Error::InvalidLiquiditySupply);
        }
        if tokens.balance(asset, who) < balance {
            return Err(Error::NotEnoughLiquiditySupply);
        }
        let mut pool = match self.pools.get(&asset) {
            Some(p) => *p,
            None => {
                return Err(Error::LendingPoolDoesNotExist);
            },
        };
        if !pool.is_active() {
            return Err(Error::LendingPoolNotActive);
        }
        pool.update_indexes(now)?;
        pool.reserve_balance = match pool.reserve_balance.checked_add(balance) {
            Some(v) => v,
            None => {
                return Err(Error::OverflowError);
            },
        };
        let scaled_minted_tokens = pool.scaled_supply_balance(balance)?;
        let mint = self.update_and_mint(
            tokens,
            who,
            asset,
            pool.id,
            scaled_minted_tokens,
            pool.supply_index,
            now,
        )?;
        proof {
            lemma_indexes_kept_put(self@, asset, pool);
        }
        self.pools.insert(asset, pool);
        let mut calls: Vec<TokenCall> = Vec::new();
        calls.push(
            TokenCall::Transfer {
                asset,
                source: who,
                dest: custody,
                amount: balance,
                preservation: Preservation::Expendable,
            },
        );
        calls.push(mint);
        proof {
            let step = old(self)@.supplied(tokens, who, asset, balance, now).unwrap();
            assert(calls@ =~= step.calls);
        }
        Ok(calls)
    }

    /// Withdraws `balance` of `asset` from the asset's pool to `who` and
    /// burns the shares that it is worth. The pool may be active or not; its
    /// reserve and the worth of the shares of `who` must cover the amount.
    pub fn do_withdrawal(
        &mut self,
        tokens: &TokenView,
        who: AccountId,
        asset: AssetId,
        balance: Balance,
        now: Timestamp,
    ) -> (r: Result<Vec<TokenCall>, Error>)
        ensures
            match old(self)@.withdrawn(tokens, who, asset, balance, now) {
                Ok(step) => r matches Ok(calls) && calls@ == step.calls && final(self)@
                    == step.state,
                Err(e) => r == Err::<Vec<TokenCall>, Error>(e) && final(self)@ == old(self)@,
            },
            indexes_kept(old(self)@, final(self)@),
            old(self)@.sound() ==> final(self)@.sound(),
            final(self)@.wf(),
    {
        let custody = self.account_id();
        proof {
            if self@.sound() {
                lemma_token_operations_keep_sound(
                    self@,
                    tokens,
                    who,
                    0,
                    asset,
                    balance,
                    0,
                    0,
                    now,
                );
            }
            lemma_indexes_kept_same(self@);
        }
        if balance == 0 {
            return Err(Error::InvalidLiquidityWithdrawal);
        }
        let mut pool = match self.pools.get(&asset) {
            Some(p) => *p,
            None => {
                return Err(Error::LendingPoolDoesNotExist);
            },
        };
        if pool.reserve_balance < balance {
            return Err(Error::NotEnoughLiquiditySupply);
        }
        pool.update_indexes(now)?;
        let scaled_lp_tokens = tokens.balance(pool.id, who);
        let eligible_lp_tokens = pool.accrued_deposit(scaled_lp_tokens)?;
        if eligible_lp_tokens < balance {
            return Err(Error::NotEnoughEligibleLiquidityToWithdraw);
        }
        let burnable_amount = pool.scaled_supply_balance(balance)?;
        pool.reserve_balance = match pool.reserve_balance.checked_sub(balance) {
            Some(v) => v,
            None => {
                return Err(Error::OverflowError);
            },
        };
        proof {
            lemma_indexes_kept_put(self@, asset, pool);
        }
        self.pools.insert(asset, pool);
        let mut calls: Vec<TokenCall> = Vec::new();
        calls.push(
            TokenCall::Transfer {
                asset,
                source: custody,
                dest: who,
                amount: balance,
                preservation: Preservation::Preserve,
            },
        );
        calls.push(TokenCall::BurnFrom { asset: pool.id, who, amount: burnable_amount });
        proof {
            let step = old(self)@.withdrawn(tokens, who, asset, balance, now).unwrap();
            assert(calls@ =~= step.calls);
        }
        Ok(calls)
    }

    /// Lends `balance` of `asset` to `who` against `collateral_balance` of
    /// `collateral_asset`.
    ///
    /// The pool must be active and hold the amount, `who` must be able to
    /// give the collateral, and the collateral's worth in the asset times the
    /// pool's collateral factor must reach the amount. The loan is recorded
    /// scaled by the borrow index; a further loan on the same assets adds to
    /// the record. A record whose balances are too large to be repaid in
    /// parts is refused.
    pub fn do_borrow(
        &mut self,
        tokens: &TokenView,
        who: AccountId,
        asset: AssetId,
        balance: Balance,
        collateral_asset: AssetId,
        collateral_balance: Balance,
        now: Timestamp,
    ) -> (r: Result<Vec<TokenCall>, Error>)
        ensures
            match old(self)@.borrowed(
                tokens,
                who,
                asset,
                balance,
                collateral_asset,
                collateral_balance,
                now,
            ) {
                Ok(step) => r matches Ok(calls) && calls@ == step.calls && final(self)@
                    == step.state,
                Err(e) => r == Err::<Vec<TokenCall>, Error>(e) && final(self)@ == old(self)@,
            },
            indexes_kept(old(self)@, final(self)@),
            old(self)@.sound() ==> final(self)@.sound(),
            final(self)@.wf(),
    {
        let custody = self.account_id();
        proof {
            if self@.sound() {
                lemma_token_operations_keep_sound(
                    self@,
                    tokens,
                    who,
                    0,
                    asset,
                    balance,
                    collateral_asset,
                    collateral_balance,
                    now,
                );
            }
            lemma_indexes_kept_same(self@);
        }
        if balance == 0 {
            return Err(Error::InvalidLiquidityWithdrawal);
        }
        if collateral_balance == 0 {
            return Err(Error::InvalidLiquidityWithdrawal);
        }
        let mut pool = match self.pools.get(&asset) {
            Some(p) => *p,
            None => {
                return Err(Error::LendingPoolDoesNotExist);
            },
        };
        if tokens.reducible_balance(collateral_asset, who) < collateral_balance {
            return Err(Error::NotEnoughLiquiditySupply);
        }
        if !pool.is_active() {
            return Err(Error::LendingPoolNotActive);
        }
        if pool.reserve_balance < balance {
            return Err(Error::NotEnoughLiquiditySupply);
        }
        pool.update_indexes(now)?;
        let equivalent_asset_balance = self.get_equivalent_asset_amount(
            asset,
            collateral_asset,
            collateral_balance,
        )?;
        let eligible_asset_amount = pool.max_borrow_amount(equivalent_asset_balance)?;
        if eligible_asset_amount < balance {
            return Err(Error::NotEnoughCollateral);
        }
        let scaled_balance = pool.scaled_borrow_balance(balance)?;
        let borrow = UserBorrow {
            borrowed_asset: asset,
            borrowed_balance: scaled_balance,
            collateral_asset,
            collateral_balance,
            borrow_index_at_borrow_time: pool.borrow_index,
        };
        let loan = match self.borrows.get(&(who, asset, collateral_asset)) {
            Some(existing) => {
                let mut record = *existing;
                record.increase_borrow(&borrow)?;
                record
            },
            None => borrow,
        };
        if Rate::checked_from_integer(loan.borrowed_balance).is_none()
            || Rate::checked_from_integer(loan.collateral_balance).is_none() {
            return Err(Error::OverflowError);
        }
        pool.move_asset_on_borrow(balance)?;
        proof {
            lemma_indexes_kept_put(self@, asset, pool);
        }
        self.borrows.insert((who, asset, collateral_asset), loan);
        self.pools.insert(asset, pool);
        let mut calls: Vec<TokenCall> = Vec::new();
        calls.push(
            TokenCall::Transfer {
                asset,
                source: custody,
                dest: who,
                amount: balance,
                preservation: Preservation::Preserve,
            },
        );
        calls.push(
            TokenCall::Transfer {
                asset: collateral_asset,
                source: who,
                dest: custody,
                amount: collateral_balance,
                preservation: Preservation::Preserve,
            },
        );
        proof {
            let step = old(self)@.borrowed(
                tokens,
                who,
                asset,
                balance,
                collateral_asset,
                collateral_balance,
                now,
            ).unwrap();
            assert(calls@ =~= step.calls);
        }
        Ok(calls)
    }

    /// Returns the collateral to release on a repayment of the fraction
    /// `repay_ratio` of what is owed: `repay_ratio * collateral_balance`.
    pub fn get_release_collateral_amount(repay_ratio: Rate, collateral_balance: Balance) -> (r:
        Result<Balance, Error>)
        ensures
            r == scale_amount(repay_ratio, collateral_balance),
    {
        multiply_amount(repay_ratio, collateral_balance)
    }

    /// Takes a repayment of up to `balance` from `who` on the loan in `asset`
    /// against `collateral_asset`, and releases collateral in return.
    pub fn do_repay(
        &mut self,
        who: AccountId,
        asset: AssetId,
        balance: Balance,
        collateral_asset: AssetId,
        now: Timestamp,
    ) -> (r: Result<Vec<TokenCall>, Error>)
        ensures
            match old(self)@.repaid(who, asset, balance, collateral_asset, now) {
                Ok(step) => r matches Ok(calls) && calls@ == step.calls && final(self)@
                    == step.state,
                Err(e) => r == Err::<Vec<TokenCall>, Error>(e) && final(self)@ == old(self)@,
            },
            indexes_kept(old(self)@, final(self)@),
            old(self)@.sound() ==> final(self)@.sound(),
            final(self)@.wf(),
    {
        let custody = self.account_id();
        proof {
            if self@.sound() {
                lemma_operations_keep_sound(self@, who, asset, balance, collateral_asset, now);
            }
            lemma_indexes_kept_same(self@);
        }
        if balance == 0 {
            return Err(Error::InvalidLiquidityWithdrawal);
        }
        let mut pool = match self.pools.get(&asset) {
            Some(p) => *p,
            None => {
                return Err(Error::LendingPoolDoesNotExist);
            },
        };
        pool.update_indexes(now)?;
        let mut loan = match self.borrows.get(&(who, asset, collateral_asset)) {
            Some(l) => *l,
            None => {
                return Err(Error::LoanDoesNotExists);
            },
        };
        let repayable_balance = pool.repayable_amount(&loan)?;
        let (pay, is_full_payment) = if balance < repayable_balance {
            (balance, false)
        } else {
            (repayable_balance, true)
        };
        if repayable_balance == 0 {
            return Err(Error::OverflowError);
        }
        let repay_ratio = match Rate::checked_from_rational(pay, repayable_balance) {
            Some(v) => v,
            None => {
                return Err(Error::OverflowError);
            },
        };
        let borrowed_balance_reduction = multiply_amount(repay_ratio, loan.borrowed_balance)?;
        pool.move_asset_on_repay(pay, borrowed_balance_reduction)?;
        let collateral_balance = loan.collateral_balance;
        loan.borrowed_balance = loan.borrowed_balance.saturating_sub(borrowed_balance_reduction);
        let release_collateral_amount = Pallet::get_release_collateral_amount(
            repay_ratio,
            loan.collateral_balance,
        )?;
        loan.collateral_balance = match loan.collateral_balance.checked_sub(
            release_collateral_amount,
        ) {
            Some(v) => v,
            None => {
                return Err(Error::OverflowError);
            },
        };
        proof {
            lemma_indexes_kept_put(self@, asset, pool);
        }
        let mut calls: Vec<TokenCall> = Vec::new();
        calls.push(
            TokenCall::Transfer {
                asset,
                source: who,
                dest: custody,
                amount: pay,
                preservation: Preservation::Preserve,
            },
        );
        if is_full_payment {
            self.borrows.remove(&(who, asset, collateral_asset));
            calls.push(
                TokenCall::Transfer {
                    asset: collateral_asset,
                    source: custody,
                    dest: who,
                    amount: collateral_balance,
                    preservation: Preservation::Preserve,
                },
            );
        } else {
            self.borrows.insert((who, asset, collateral_asset), loan);
            calls.push(
                TokenCall::Transfer {
                    asset: collateral_asset,
                    source: custody,
                    dest: who,
                    amount: release_collateral_amount,
                    preservation: Preservation::Expendable,
                },
            );
        }
        self.pools.insert(asset, pool);
        proof {
            let step = old(self)@.repaid(who, asset, balance, collateral_asset, now).unwrap();
            assert(calls@ =~= step.calls);
        }
        Ok(calls)
    }

    /// The time in seconds of a clock that counts milliseconds.
    pub fn now_in_seconds(now_millis: u64) -> (r: Timestamp)
        ensures
            r == now_millis / 1000,
    {
        now_millis / 1000
    }

    /// Fetches the balance of `account` in `asset`.
    pub fn get_asset_balance(tokens: &TokenView, account: AccountId, asset: AssetId) -> (r: Result<
        Balance,
        Error,
    >)
        ensures
            r == Ok::<Balance, Error>(tokens.spec_balance(asset, account)),
    {
        Ok(tokens.balance(asset, account))
    }

    /// Retrieves name, decimals and symbol of `asset`.
    pub fn get_metadata(tokens: &TokenView, asset: AssetId) -> (r: (Vec<u8>, u8, Vec<u8>))
        ensures
            r.0@ == tokens.spec_name(asset),
            r.1 == tokens.spec_decimals(asset),
            r.2@ == tokens.spec_symbol(asset),
    {
        (tokens.name(asset), tokens.decimals(asset), tokens.symbol(asset))
    }

    /// Stores `pool` as the pool of `asset`, whatever was stored before.
    pub fn insert_pool(&mut self, asset: AssetId, pool: LendingPool)
        ensures
            final(self)@ == old(self)@.with_pool(asset, pool),
            final(self)@.wf(),
    {
        let _ = self.account_id();
        self.pools.insert(asset, pool);
    }

    /// Stores `loan` as the loan of `who` in `asset` against
    /// `collateral_asset`, whatever was stored before.
    pub fn insert_borrow(
        &mut self,
        who: AccountId,
        asset: AssetId,
        collateral_asset: AssetId,
        loan: UserBorrow,
    )
        ensures
            final(self)@ == (State {
                borrows: put(old(self)@.borrows, (who, asset, collateral_asset), loan),
                ..old(self)@
            }),
            final(self)@.wf(),
    {
        let _ = self.account_id();
        self.borrows.insert((who, asset, collateral_asset), loan);
    }

    /// Stores the supply index that `who` last minted shares of `asset` at.
    pub fn insert_supply_index(&mut self, who: AccountId, asset: AssetId, index: SupplyIndex)
        ensures
            final(self)@ == (State {
                supply_indexes: put(old(self)@.supply_indexes, (who, asset), index),
                ..old(self)@
            }),
            final(self)@.wf(),
    {
        let _ = self.account_id();
        self.supply_indexes.insert((who, asset), index);
    }

    /// The supply index that `who` last minted shares of `asset` at; zero
    /// before the first mint.
    pub fn supply_index_of(&self, who: AccountId, asset: AssetId) -> (r: SupplyIndex)
        ensures
            r == self@.supply_index_of(who, asset),
    {
        match self.supply_indexes.get(&(who, asset)) {
            Some(s) => *s,
            None => SupplyIndex::from(Rate::zero(), 0),
        }
    }

    /// The direct quote of `asset` in units of `base`.
    pub fn asset_price(&self, asset: AssetId, base: AssetId) -> (r: Option<Rate>)
        ensures
            r == self@.price(asset, base),
    {
        match self.prices.get(&(asset, base)) {
            Some(p) => Some(*p),
            None => None,
        }
    }

    /// The number of prices.
    pub fn price_count(&self) -> (r: usize)
        ensures
            r == self@.prices.len(),
    {
        self.prices.len()
    }

    /// The `i`-th price and its pair of assets.
    pub fn price_at(&self, i: usize) -> (r: &((AssetId, AssetId), Rate))
        requires
            i < self@.prices.len(),
        ensures
            *r == self@.prices[i as int],
    {
        self.prices.entry(i)
    }

    /// The number of supply indexes.
    pub fn supply_index_count(&self) -> (r: usize)
        ensures
            r == self@.supply_indexes.len(),
    {
        self.supply_indexes.len()
    }

    /// The `i`-th supply index, with its account and asset.
    pub fn supply_index_at(&self, i: usize) -> (r: &((AccountId, AssetId), SupplyIndex))
        requires
            i < self@.supply_indexes.len(),
        ensures
            *r == self@.supply_indexes[i as int],
    {
        self.supply_indexes.entry(i)
    }

    /// The number of pools.
    pub fn pool_count(&self) -> (r: usize)
        ensures
            r == self@.pools.len(),
            self@.wf(),
    {
        let _ = self.account_id();
        self.pools.len()
    }

    /// The `i`-th pool and the asset that it lends.
    pub fn pool_at(&self, i: usize) -> (r: &(AssetId, LendingPool))
        requires
            i < self@.pools.len(),
        ensures
            *r == self@.pools[i as int],
    {
        self.pools.entry(i)
    }

    /// The number of loans.
    pub fn loan_count(&self) -> (r: usize)
        ensures
            r == self@.borrows.len(),
            self@.wf(),
    {
        let _ = self.account_id();
        self.borrows.len()
    }

    /// The `i`-th loan and its key.
    pub fn loan_at(&self, i: usize) -> (r: &(LoanKey, UserBorrow))
        requires
            i < self@.borrows.len(),
        ensures
            *r == self@.borrows[i as int],
    {
        self.borrows.entry(i)
    }

    /// The totals of the loans of `account` with one more loan taken in.
    fn ltv_step(
        &self,
        totals: LtvTotals,
        key: LoanKey,
        loan: &UserBorrow,
        account: AccountId,
        now: Timestamp,
    ) -> (r: LtvTotals)
        ensures
            r == self@.ltv_add(totals, key, *loan, account, now),
    {
        if key.0 != account {
            return totals;
        }
        let mut pool = match self.pools.get(&key.1) {
            Some(p) => *p,
            None => {
                return totals;
            },
        };
        if pool.update_indexes(now).is_err() {
            return totals;
        }
        let repayable_amount = match pool.repayable_amount(loan) {
            Ok(amount) => amount,
            Err(_) => {
                return totals;
            },
        };
        let borrowed_usdt = match self.get_equivalent_asset_amount(
            ANCHOR_ASSET,
            key.1,
            repayable_amount,
        ) {
            Ok(amount) => amount,
            Err(_) => {
                return totals;
            },
        };
        let mut next = totals;
        next.borrowed = totals.borrowed.saturating_add(borrowed_usdt);
        let collateral_usdt = match self.get_equivalent_asset_amount(
            ANCHOR_ASSET,
            key.2,
            loan.collateral_balance,
        ) {
            Ok(amount) => amount,
            Err(_) => {
                return next;
            },
        };
        next.collateral = totals.collateral.saturating_add(collateral_usdt);
        if pool.collateral_factor.parts < totals.min_collateral_factor.parts {
            next.min_collateral_factor = pool.collateral_factor;
        }
        if pool.liquidation_threshold.parts < totals.min_liquidation_threshold.parts {
            next.min_liquidation_threshold = pool.liquidation_threshold;
        }
        next
    }

    /// Computes the loan-to-value figures of `account` at the time `now`:
    /// the current ratio of debt to collateral, the lowest collateral factor
    /// and the lowest liquidation threshold of the pools borrowed from.
    pub fn compute_user_ltv(&self, account: AccountId, now: Timestamp) -> (r: (Rate, Rate, Rate))
        ensures
            r == self@.user_ltv(account, now),
    {
        let mut totals = LtvTotals {
            borrowed: 0,
            collateral: 0,
            min_collateral_factor: Ratio::from_percent(100),
            min_liquidation_threshold: Ratio::from_percent(100),
        };
        let n = self.loan_count();
        let mut i: usize = 0;
        while i < n
            invariant
                i <= n,
                n == self@.borrows.len(),
                totals == self@.ltv_totals(account, now, i as nat),
            decreases n - i,
        {
            let entry = self.loan_at(i);
            totals = self.ltv_step(totals, entry.0, &entry.1, account, now);
            i += 1;
        }
        let current_ltv = if totals.collateral != 0 {
            match Rate::checked_from_rational(totals.borrowed, totals.collateral) {
                Some(ltv) => ltv,
                None => Rate::zero(),
            }
        } else {
            Rate::zero()
        };
        (
            current_ltv,
            Rate::from_ratio(totals.min_collateral_factor),
            Rate::from_ratio(totals.min_liquidation_threshold),
        )
    }
}

} // verus!
