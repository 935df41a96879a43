//! Read-only projections of the ledger for outside readers.

use crate::borrow_repay::UserBorrow;
use crate::fixed::Rate;
use crate::pallet::{LoanKey, Pallet};
use crate::state::{saturating_sum, State};
use crate::pool::{rate_of, LendingPool};
use crate::tokens::TokenView;
use crate::types::{
    AccountId, AssetId, Balance, Error, Timestamp, TotalBorrow, TotalCollateral, TotalDeposit,
    ANCHOR_ASSET,
};
use vstd::prelude::*;

verus! {

/// A lending pool as outside readers see it.
#[derive(Debug, PartialEq, Eq)]
pub struct LendingPoolInfo {
    pub id: u32,
    pub asset_id: u32,
    pub asset: Vec<u8>,
    pub asset_decimals: u32,
    pub asset_icon: Vec<u8>,
    pub asset_symbol: Vec<u8>,
    pub collateral_q: u64,
    pub utilization: Rate,
    pub borrow_apy: Rate,
    pub borrow_apy_s: Rate,
    pub supply_apy: Rate,
    pub supply_apy_s: Rate,
    pub is_activated: bool,
    pub user_asset_balance: Option<u128>,
}

/// The mathematical value of a [`LendingPoolInfo`].
pub struct LendingPoolInfoView {
    pub id: u32,
    pub asset_id: u32,
    pub asset: Seq<u8>,
    pub asset_decimals: u32,
    pub asset_icon: Seq<u8>,
    pub asset_symbol: Seq<u8>,
    pub collateral_q: u64,
    pub utilization: Rate,
    pub borrow_apy: Rate,
    pub borrow_apy_s: Rate,
    pub supply_apy: Rate,
    pub supply_apy_s: Rate,
    pub is_activated: bool,
    pub user_asset_balance: Option<u128>,
}

impl View for LendingPoolInfo {
    type V = LendingPoolInfoView;

    open spec fn view(&self) -> LendingPoolInfoView {
        LendingPoolInfoView {
            id: self.id,
            asset_id: self.asset_id,
            asset: self.asset@,
            asset_decimals: self.asset_decimals,
            asset_icon: self.asset_icon@,
            asset_symbol: self.asset_symbol@,
            collateral_q: self.collateral_q,
            utilization: self.utilization,
            borrow_apy: self.borrow_apy,
            borrow_apy_s: self.borrow_apy_s,
            supply_apy: self.supply_apy,
            supply_apy_s: self.supply_apy_s,
            is_activated: self.is_activated,
            user_asset_balance: self.user_asset_balance,
        }
    }
}

/// Reserves and loans of the listed pools, in the anchor asset.
#[derive(Clone, Copy, Debug, PartialEq, Eq, Structural)]
pub struct AggregatedTotals {
    pub total_supply: u128,
    pub total_borrow: u128,
}

/// An asset and what an account holds of it.
#[derive(Debug, PartialEq, Eq)]
pub struct AssetInfo {
    pub asset_id: u32,
    pub asset_symbol: Vec<u8>,
    pub asset_name: Vec<u8>,
    pub decimals: u8,
    pub asset_icon: Vec<u8>,
    pub balance: u128,
}

/// The mathematical value of an [`AssetInfo`].
pub struct AssetInfoView {
    pub asset_id: u32,
    pub asset_symbol: Seq<u8>,
    pub asset_name: Seq<u8>,
    pub decimals: u8,
    pub asset_icon: Seq<u8>,
    pub balance: u128,
}

impl View for AssetInfo {
    type V = AssetInfoView;

    open spec fn view(&self) -> AssetInfoView {
        AssetInfoView {
            asset_id: self.asset_id,
            asset_symbol: self.asset_symbol@,
            asset_name: self.asset_name@,
            decimals: self.decimals,
            asset_icon: self.asset_icon@,
            balance: self.balance,
        }
    }
}

/// An asset that an account has supplied to a pool.
#[derive(Debug, PartialEq, Eq)]
pub struct SuppliedAsset {
    pub asset_info: AssetInfo,
    pub apy: Rate,
    pub supplied: u128,
}

/// The mathematical value of a [`SuppliedAsset`].
pub struct SuppliedAssetView {
    pub asset_info: AssetInfoView,
    pub apy: Rate,
    pub supplied: u128,
}

impl View for SuppliedAsset {
    type V = SuppliedAssetView;

    open spec fn view(&self) -> SuppliedAssetView {
        SuppliedAssetView { asset_info: self.asset_info@, apy: self.apy, supplied: self.supplied }
    }
}

/// An asset that an account has borrowed from a pool.
#[derive(Debug, PartialEq, Eq)]
pub struct BorrowedAsset {
    pub asset_info: AssetInfo,
    pub apy: Rate,
    pub borrowed: u128,
}

/// The mathematical value of a [`BorrowedAsset`].
pub struct BorrowedAssetView {
    pub asset_info: AssetInfoView,
    pub apy: Rate,
    pub borrowed: u128,
}

impl View for BorrowedAsset {
    type V = BorrowedAssetView;

    open spec fn view(&self) -> BorrowedAssetView {
        BorrowedAssetView { asset_info: self.asset_info@, apy: self.apy, borrowed: self.borrowed }
    }
}

/// An asset that an account has given as collateral.
#[derive(Debug, PartialEq, Eq)]
pub struct CollateralAsset {
    pub asset_info: AssetInfo,
}

/// The mathematical value of a [`CollateralAsset`].
pub struct CollateralAssetView {
    pub asset_info: AssetInfoView,
}

impl View for CollateralAsset {
    type V = CollateralAssetView;

    open spec fn view(&self) -> CollateralAssetView {
        CollateralAssetView { asset_info: self.asset_info@ }
    }
}

/// The loan-to-value figures of an account.
#[derive(Clone, Copy, Debug, PartialEq, Eq, Structural)]
pub struct UserLTVInfo {
    pub current_ltv: Rate,
    pub sale_ltv: Rate,
    pub liquidation_ltv: Rate,
}

/// The supplied assets of an account and their worth.
pub struct Supplies {
    pub assets: Seq<SuppliedAssetView>,
    pub total: TotalDeposit,
}

/// The listed pools and their totals.
pub struct PoolListing {
    pub pools: Seq<LendingPoolInfoView>,
    pub totals: AggregatedTotals,
}

/// The loans and collaterals of an account and their worth.
pub struct Debts {
    pub borrowed: Seq<BorrowedAssetView>,
    pub collaterals: Seq<CollateralAssetView>,
    pub total_borrow: TotalBorrow,
    pub total_collateral: TotalCollateral,
}

/// The icon that every asset is shown with.
pub open spec fn asset_icon_spec() -> Seq<u8> {
    seq![60u8, 117u8, 114u8, 108u8, 62u8, 47u8, 100u8, 111u8, 116u8, 46u8, 115u8, 118u8, 103u8]
}

/// The icon that every asset is shown with: the bytes of `<url>/dot.svg`.
pub fn asset_icon() -> (r: Vec<u8>)
    ensures
        r@ == asset_icon_spec(),
{
    let r = vec![60u8, 117u8, 114u8, 108u8, 62u8, 47u8, 100u8, 111u8, 116u8, 46u8, 115u8, 118u8, 103u8];
    proof {
        assert(r@ =~= asset_icon_spec());
    }
    r
}

/// The rate, or zero in place of an error.
pub open spec fn rate_or_zero(rate: Result<Rate, Error>) -> Rate {
    match rate {
        Ok(v) => v,
        Err(_) => Rate { inner: 0 },
    }
}

/// The amount, or zero in place of an error.
pub open spec fn amount_or_zero(amount: Result<Balance, Error>) -> Balance {
    match amount {
        Ok(v) => v,
        Err(_) => 0,
    }
}

/// The views of the items of `items`.
pub open spec fn views<T: View>(items: Seq<T>) -> Seq<T::V> {
    items.map_values(|item: T| item@)
}

/// `asset` as `account` sees it.
pub open spec fn asset_info_spec(tokens: &TokenView, asset: AssetId, balance: Balance)
    -> AssetInfoView {
    AssetInfoView {
        asset_id: asset,
        asset_symbol: tokens.spec_symbol(asset),
        asset_name: tokens.spec_name(asset),
        decimals: tokens.spec_decimals(asset),
        asset_icon: asset_icon_spec(),
        balance,
    }
}

/// Whether a pool passes the filter `asset`.
pub open spec fn pool_listed(asset: Option<AssetId>, pool: LendingPool) -> bool {
    match asset {
        Some(id) => pool.lend_token_id == id,
        None => true,
    }
}

/// `pool` as outside readers see it: its rates at the present utilisation,
/// with zero in place of a rate that cannot be worked out, and the balance
/// of `account` in the pool's asset where an account is given.
pub open spec fn pool_info_spec(tokens: &TokenView, pool: LendingPool, account: Option<AccountId>)
    -> LendingPoolInfoView {
    LendingPoolInfoView {
        id: pool.id,
        asset_id: pool.lend_token_id,
        asset: tokens.spec_name(pool.lend_token_id),
        asset_decimals: tokens.spec_decimals(pool.lend_token_id) as u32,
        asset_icon: asset_icon_spec(),
        asset_symbol: tokens.spec_symbol(pool.lend_token_id),
        collateral_q: pool.collateral_factor.parts as u64,
        utilization: match pool.utilisation_spec() {
            Ok(u) => rate_of(u),
            Err(_) => Rate { inner: 0 },
        },
        borrow_apy: rate_or_zero(pool.borrow_rate_spec()),
        borrow_apy_s: Rate { inner: 0 },
        supply_apy: rate_or_zero(pool.supply_rate_spec()),
        supply_apy_s: Rate { inner: 0 },
        is_activated: pool.activated,
        user_asset_balance: match account {
            Some(who) => Some(tokens.spec_balance(pool.lend_token_id, who)),
            None => None,
        },
    }
}

impl State {
    /// The listing of the first `n` pools that pass the filter `asset`, in
    /// the order of the pool table, with the sums of their reserves and of
    /// their loans in the anchor asset. A balance that cannot be valued
    /// counts as zero, and a sum stops at the largest amount.
    pub open spec fn lending_pools(
        self,
        tokens: &TokenView,
        asset: Option<AssetId>,
        account: Option<AccountId>,
        n: nat,
    ) -> PoolListing
        decreases n,
    {
        if n == 0 || n > self.pools.len() {
            PoolListing {
                pools: Seq::empty(),
                totals: AggregatedTotals { total_supply: 0, total_borrow: 0 },
            }
        } else {
            let before = self.lending_pools(tokens, asset, account, (n - 1) as nat);
            let pool = self.pools[n - 1].1;
            if pool_listed(asset, pool) {
                PoolListing {
                    pools: before.pools.push(pool_info_spec(tokens, pool, account)),
                    totals: AggregatedTotals {
                        total_supply: saturating_sum(
                            before.totals.total_supply,
                            amount_or_zero(
                                self.equivalent_amount(
                                    ANCHOR_ASSET,
                                    pool.lend_token_id,
                                    pool.reserve_balance,
                                ),
                            ),
                        ),
                        total_borrow: saturating_sum(
                            before.totals.total_borrow,
                            amount_or_zero(
                                self.equivalent_amount(
                                    ANCHOR_ASSET,
                                    pool.lend_token_id,
                                    pool.borrowed_balance,
                                ),
                            ),
                        ),
                    },
                }
            } else {
                before
            }
        }
    }

    /// What `account` has supplied to `stored`, where that can be worked out
    /// and is not nothing: the worth of its shares at the supply index of
    /// `now`, and the pool accrued until then.
    pub open spec fn supply_of(
        tokens: &TokenView,
        stored: LendingPool,
        account: AccountId,
        now: Timestamp,
    ) -> Option<(LendingPool, Balance)> {
        if tokens.spec_balance(stored.id, account) == 0 {
            None
        } else {
            match stored.accrued(now) {
                Err(_) => None,
                Ok(pool) => match pool.accrued_deposit_spec(tokens.spec_balance(pool.id, account)) {
                    Err(_) => None,
                    Ok(supplied) => Some((pool, supplied)),
                },
            }
        }
    }

    /// The supplies of `account` to the first `n` pools, in the order of the
    /// pool table, and their worth in the anchor asset.
    pub open spec fn asset_wise_supplies(
        self,
        tokens: &TokenView,
        account: AccountId,
        now: Timestamp,
        n: nat,
    ) -> Supplies
        decreases n,
    {
        if n == 0 || n > self.pools.len() {
            Supplies { assets: Seq::empty(), total: 0 }
        } else {
            let before = self.asset_wise_supplies(tokens, account, now, (n - 1) as nat);
            match State::supply_of(tokens, self.pools[n - 1].1, account, now) {
                None => before,
                Some((pool, supplied)) => Supplies {
                    assets: before.assets.push(
                        SuppliedAssetView {
                            asset_info: asset_info_spec(
                                tokens,
                                pool.lend_token_id,
                                tokens.spec_balance(pool.lend_token_id, account),
                            ),
                            apy: rate_or_zero(pool.supply_rate_spec()),
                            supplied,
                        },
                    ),
                    total: saturating_sum(
                        before.total,
                        amount_or_zero(
                            self.equivalent_amount(ANCHOR_ASSET, pool.lend_token_id, supplied),
                        ),
                    ),
                },
            }
        }
    }

    /// What is owed on the loan under `key`, where it is a loan of `account`
    /// and that can be worked out, and the pool accrued until `now`.
    pub open spec fn debt_of(
        self,
        key: LoanKey,
        loan: UserBorrow,
        account: AccountId,
        now: Timestamp,
    ) -> Option<(LendingPool, Balance)> {
        if key.0 != account {
            None
        } else {
            match self.pool(key.1) {
                None => None,
                Some(stored) => match stored.accrued(now) {
                    Err(_) => None,
                    Ok(pool) => match pool.repayable_spec(loan) {
                        Err(_) => None,
                        Ok(owed) => Some((pool, owed)),
                    },
                },
            }
        }
    }

    /// The loans of `account` among the first `n` entries of the loan table,
    /// with their collaterals, in the order of the table, and the worth of
    /// both in the anchor asset.
    pub open spec fn asset_wise_borrows_collaterals(
        self,
        tokens: &TokenView,
        account: AccountId,
        now: Timestamp,
        n: nat,
    ) -> Debts
        decreases n,
    {
        if n == 0 || n > self.borrows.len() {
            Debts {
                borrowed: Seq::empty(),
                collaterals: Seq::empty(),
                total_borrow: 0,
                total_collateral: 0,
            }
        } else {
            let before = self.asset_wise_borrows_collaterals(tokens, account, now, (n - 1) as nat);
            let key = self.borrows[n - 1].0;
            let loan = self.borrows[n - 1].1;
            match self.debt_of(key, loan, account, now) {
                None => before,
                Some((pool, owed)) => Debts {
                    borrowed: before.borrowed.push(
                        BorrowedAssetView {
                            asset_info: asset_info_spec(
                                tokens,
                                key.1,
                                tokens.spec_balance(key.1, account),
                            ),
                            apy: rate_or_zero(pool.borrow_rate_spec()),
                            borrowed: owed,
                        },
                    ),
                    collaterals: before.collaterals.push(
                        CollateralAssetView {
                            asset_info: asset_info_spec(tokens, key.2, loan.collateral_balance),
                        },
                    ),
                    total_borrow: saturating_sum(
                        before.total_borrow,
                        amount_or_zero(self.equivalent_amount(ANCHOR_ASSET, key.1, owed)),
                    ),
                    total_collateral: saturating_sum(
                        before.total_collateral,
                        amount_or_zero(
                            self.equivalent_amount(ANCHOR_ASSET, key.2, loan.collateral_balance),
                        ),
                    ),
                },
            }
        }
    }
}

/// `asset` with its metadata and the balance `balance`.
pub fn asset_info(tokens: &TokenView, asset: AssetId, balance: Balance) -> (r: AssetInfo)
    ensures
        r@ == asset_info_spec(tokens, asset, balance),
{
    let (asset_name, decimals, asset_symbol) = Pallet::get_metadata(tokens, asset);
    AssetInfo {
        asset_id: asset,
        asset_symbol,
        asset_name,
        decimals,
        asset_icon: asset_icon(),
        balance,
    }
}

/// `pool` as outside readers see it.
pub fn pool_info(tokens: &TokenView, pool: &LendingPool, account: Option<AccountId>) -> (r:
    LendingPoolInfo)
    ensures
        r@ == pool_info_spec(tokens, *pool, account),
{
    let (asset_name, asset_decimals, asset_symbol) = Pallet::get_metadata(
        tokens,
        pool.lend_token_id,
    );
    let user_asset_balance = match account {
        Some(who) => Some(tokens.balance(pool.lend_token_id, who)),
        None => None,
    };
    let utilization = match pool.utilisation_ratio() {
        Ok(u) => Rate::from_ratio(u),
        Err(_) => Rate::zero(),
    };
    let borrow_apy = match pool.borrow_interest_rate() {
        Ok(v) => v,
        Err(_) => Rate::zero(),
    };
    let supply_apy = match pool.supply_interest_rate() {
        Ok(v) => v,
        Err(_) => Rate::zero(),
    };
    LendingPoolInfo {
        id: pool.id,
        asset_id: pool.lend_token_id,
        asset: asset_name,
        asset_decimals: asset_decimals as u32,
        asset_icon: asset_icon(),
        asset_symbol,
        collateral_q: pool.collateral_factor.deconstruct() as u64,
        utilization,
        borrow_apy,
        borrow_apy_s: Rate::zero(),
        supply_apy,
        supply_apy_s: Rate::zero(),
        is_activated: pool.activated,
        user_asset_balance,
    }
}

impl Pallet {
    /// The worth of `amount` of `asset` in the anchor asset, or zero where it
    /// cannot be worked out.
    fn anchor_worth(&self, asset: AssetId, amount: Balance) -> (r: Balance)
        ensures
            r == amount_or_zero(self@.equivalent_amount(ANCHOR_ASSET, asset, amount)),
    {
        match self.get_equivalent_asset_amount(ANCHOR_ASSET, asset, amount) {
            Ok(v) => v,
            Err(_) => 0,
        }
    }

    /// Retrieves the lending pools and the sums of their reserves and loans.
    ///
    /// With `asset` given only the pool of that asset is listed. With
    /// `account` given each pool comes with the balance of the account in
    /// the pool's asset.
    pub fn get_lending_pools(
        &self,
        tokens: &TokenView,
        asset: Option<AssetId>,
        account: Option<AccountId>,
    ) -> (r: (Vec<LendingPoolInfo>, AggregatedTotals))
        ensures
            views(r.0@) == self@.lending_pools(tokens, asset, account, self@.pools.len()).pools,
            r.1 == self@.lending_pools(tokens, asset, account, self@.pools.len()).totals,
    {
        let mut total_supply: u128 = 0;
        let mut total_borrow: u128 = 0;
        let mut pools: Vec<LendingPoolInfo> = Vec::new();
        let n = self.pool_count();
        let mut i: usize = 0;
        proof {
            assert(views(pools@) =~= Seq::<LendingPoolInfoView>::empty());
        }
        while i < n
            invariant
                i <= n,
                n == self@.pools.len(),
                views(pools@) == self@.lending_pools(tokens, asset, account, i as nat).pools,
                (AggregatedTotals { total_supply, total_borrow }) == self@.lending_pools(
                    tokens,
                    asset,
                    account,
                    i as nat,
                ).totals,
            decreases n - i,
        {
            let pool = &self.pool_at(i).1;
            let listed = match asset {
                Some(id) => pool.lend_token_id == id,
                None => true,
            };
            if listed {
                let info = pool_info(tokens, pool, account);
                let supply = self.anchor_worth(pool.lend_token_id, pool.reserve_balance);
                let borrow = self.anchor_worth(pool.lend_token_id, pool.borrowed_balance);
                total_supply = total_supply.saturating_add(supply);
                total_borrow = total_borrow.saturating_add(borrow);
                let ghost before = pools@;
                pools.push(info);
                proof {
                    assert(views(pools@) =~= views(before).push(info@));
                }
            }
            i += 1;
        }
        (pools, AggregatedTotals { total_supply, total_borrow })
    }

    /// Retrieves the assets that `account` has supplied, each with the worth
    /// of its shares at the time `now`, and their total in the anchor asset.
    pub fn get_asset_wise_supplies(&self, tokens: &TokenView, account: AccountId, now: Timestamp)
        -> (r: (Vec<SuppliedAsset>, TotalDeposit))
        ensures
            views(r.0@) == self@.asset_wise_supplies(
                tokens,
                account,
                now,
                self@.pools.len(),
            ).assets,
            r.1 == self@.asset_wise_supplies(tokens, account, now, self@.pools.len()).total,
    {
        let mut total_supply: u128 = 0;
        let mut supplied_assets: Vec<SuppliedAsset> = Vec::new();
        let n = self.pool_count();
        let mut i: usize = 0;
        proof {
            assert(views(supplied_assets@) =~= Seq::<SuppliedAssetView>::empty());
        }
        while i < n
            invariant
                i <= n,
                n == self@.pools.len(),
                views(supplied_assets@) == self@.asset_wise_supplies(
                    tokens,
                    account,
                    now,
                    i as nat,
                ).assets,
                total_supply == self@.asset_wise_supplies(tokens, account, now, i as nat).total,
            decreases n - i,
        {
            let mut pool = self.pool_at(i).1;
            i += 1;
            let lp_balance = tokens.balance(pool.id, account);
            if lp_balance == 0 {
                continue ;
            }
            if pool.update_indexes(now).is_err() {
                continue ;
            }
            let supplied_amount = match pool.accrued_deposit(lp_balance) {
                Ok(v) => v,
                Err(_) => {
                    continue ;
                },
            };
            let asset_balance = tokens.balance(pool.lend_token_id, account);
            let equivalent_supplied_amount = self.anchor_worth(pool.lend_token_id, supplied_amount);
            let apy = match pool.supply_interest_rate() {
                Ok(v) => v,
                Err(_) => Rate::zero(),
            };
            total_supply = total_supply.saturating_add(equivalent_supplied_amount);
            let supplied = SuppliedAsset {
                asset_info: asset_info(tokens, pool.lend_token_id, asset_balance),
                apy,
                supplied: supplied_amount,
            };
            let ghost before = supplied_assets@;
            supplied_assets.push(supplied);
            proof {
                assert(views(supplied_assets@) =~= views(before).push(supplied@));
            }
        }
        (supplied_assets, total_supply)
    }

    /// Retrieves the assets that `account` has borrowed, each with what is
    /// owed at the time `now`, the collaterals given for them, and the
    /// totals of both in the anchor asset.
    pub fn get_asset_wise_borrows_collaterals(
        &self,
        tokens: &TokenView,
        account: AccountId,
        now: Timestamp,
    ) -> (r: (Vec<BorrowedAsset>, Vec<CollateralAsset>, TotalBorrow, TotalCollateral))
        ensures
            views(r.0@) == self@.asset_wise_borrows_collaterals(
                tokens,
                account,
                now,
                self@.borrows.len(),
            ).borrowed,
            views(r.1@) == self@.asset_wise_borrows_collaterals(
                tokens,
                account,
                now,
                self@.borrows.len(),
            ).collaterals,
            r.2 == self@.asset_wise_borrows_collaterals(
                tokens,
                account,
                now,
                self@.borrows.len(),
            ).total_borrow,
            r.3 == self@.asset_wise_borrows_collaterals(
                tokens,
                account,
                now,
                self@.borrows.len(),
            ).total_collateral,
    {
        let mut total_borrow: u128 = 0;
        let mut total_collateral: u128 = 0;
        let mut borrowed_assets: Vec<BorrowedAsset> = Vec::new();
        let mut collateral_assets: Vec<CollateralAsset> = Vec::new();
        let n = self.loan_count();
        let mut i: usize = 0;
        proof {
            assert(views(borrowed_assets@) =~= Seq::<BorrowedAssetView>::empty());
            assert(views(collateral_assets@) =~= Seq::<CollateralAssetView>::empty());
        }
        while i < n
            invariant
                i <= n,
                n == self@.borrows.len(),
                (Debts {
                    borrowed: views(borrowed_assets@),
                    collaterals: views(collateral_assets@),
                    total_borrow,
                    total_collateral,
                }) == self@.asset_wise_borrows_collaterals(tokens, account, now, i as nat),
            decreases n - i,
        {
            let entry = self.loan_at(i);
            let (borrower, borrowed_asset, collateral_asset) = entry.0;
            let loan = entry.1;
            i += 1;
            if borrower != account {
                continue ;
            }
            let mut pool = match self.reserve_pools(crate::pallet::AssetPool::from(borrowed_asset)) {
                Some(p) => p,
                None => {
                    continue ;
                },
            };
            if pool.update_indexes(now).is_err() {
                continue ;
            }
            let borrowed_amount = match pool.repayable_amount(&loan) {
                Ok(amount) => amount,
                Err(_) => {
                    continue ;
                },
            };
            let borrow_balance = tokens.balance(borrowed_asset, account);
            let equivalent_borrowed_amount = self.anchor_worth(borrowed_asset, borrowed_amount);
            total_borrow = total_borrow.saturating_add(equivalent_borrowed_amount);
            let apy = match pool.borrow_interest_rate() {
                Ok(v) => v,
                Err(_) => Rate::zero(),
            };
            let borrowed = BorrowedAsset {
                asset_info: asset_info(tokens, borrowed_asset, borrow_balance),
                apy,
                borrowed: borrowed_amount,
            };
            let ghost borrowed_before = borrowed_assets@;
            borrowed_assets.push(borrowed);
            let collateral_balance = loan.collateral_balance;
            let equivalent_collateral_amount = self.anchor_worth(
                collateral_asset,
                collateral_balance,
            );
            total_collateral = total_collateral.saturating_add(equivalent_collateral_amount);
            let collateral = CollateralAsset {
                asset_info: asset_info(tokens, collateral_asset, collateral_balance),
            };
            let ghost collateral_before = collateral_assets@;
            collateral_assets.push(collateral);
            proof {
                assert(views(borrowed_assets@) =~= views(borrowed_before).push(borrowed@));
                assert(views(collateral_assets@) =~= views(collateral_before).push(collateral@));
            }
        }
        (borrowed_assets, collateral_assets, total_borrow, total_collateral)
    }

    /// The loan-to-value figures of `account` at the time `now`.
    pub fn get_user_ltv(&self, account: AccountId, now: Timestamp) -> (r: UserLTVInfo)
        ensures
            (r.current_ltv, r.sale_ltv, r.liquidation_ltv) == self@.user_ltv(account, now),
    {
        let (current_ltv, sale_ltv, liquidation_ltv) = self.compute_user_ltv(account, now);
        UserLTVInfo { current_ltv, sale_ltv, liquidation_ltv }
    }
}

} // verus!
