use lending::{
    AssetPool, Error, LendingPool, Pallet, Preservation, Rate, TokenCall, TokenView,
};

const ADMIN: u64 = 1;
const ALICE: u64 = 2;
const BOB: u64 = 3;
const USDT: u32 = 1;
const DOT: u32 = 2;
const KSM: u32 = 3;
const LENDING_POOL_TOKEN: u32 = 99999;
// The account that keeps the pools' tokens.
const CUSTODY: u64 = 1_000_000;
// Seconds per block.
const BLOCK_TIME: u64 = 6;

/// A ledger together with a token ledger that carries out what it asks for.
struct Ext {
    lending: Pallet,
    tokens: TokenView,
    block: u64,
    now: u64,
}

#[allow(dead_code)]
impl Ext {
    /// A world in which the given accounts hold the given amounts; every
    /// asset named exists, with eighteen decimals.
    fn build(endowed: Vec<(u32, u64, u128)>) -> Ext {
        let mut ext = Ext { lending: Pallet::new(CUSTODY), tokens: TokenView::new(), block: 1, now: 0 };
        for (asset, who, amount) in endowed {
            if !ext.tokens.asset_exists(asset) {
                ext.tokens.set_metadata(
                    asset,
                    format!("{}Name", asset).into_bytes(),
                    18,
                    format!("{}Symbol", asset).into_bytes(),
                );
            }
            ext.set(asset, who, amount);
        }
        ext
    }

    /// Sets a balance; the smallest unit cannot leave an account that stays.
    fn set(&mut self, asset: u32, who: u64, total: u128) {
        self.tokens.set_balance(asset, who, total, total.saturating_sub(1));
    }

    fn balance(&self, asset: u32, who: u64) -> u128 {
        self.tokens.balance(asset, who)
    }

    fn pallet_balance(&self, asset: u32) -> u128 {
        self.tokens.balance(asset, CUSTODY)
    }

    /// Carries out the calls that an operation asked for.
    fn apply(&mut self, calls: &Vec<TokenCall>) {
        for call in calls {
            match *call {
                TokenCall::Transfer { asset, source, dest, amount, .. } => {
                    let from = self.balance(asset, source);
                    assert!(from >= amount, "transfer of {} from a balance of {}", amount, from);
                    self.set(asset, source, from - amount);
                    let to = self.balance(asset, dest);
                    self.set(asset, dest, to + amount);
                },
                TokenCall::Create { id, .. } => {
                    assert!(!self.tokens.asset_exists(id));
                    self.tokens.set_metadata(id, Vec::new(), 0, Vec::new());
                },
                TokenCall::MintInto { asset, who, amount } => {
                    let held = self.balance(asset, who);
                    self.set(asset, who, held + amount);
                },
                TokenCall::BurnFrom { asset, who, amount } => {
                    let held = self.balance(asset, who);
                    assert!(held >= amount, "burn of {} from a balance of {}", amount, held);
                    self.set(asset, who, held - amount);
                },
            }
        }
    }

    fn done(&mut self, outcome: Result<Vec<TokenCall>, Error>) -> Result<Vec<TokenCall>, Error> {
        if let Ok(calls) = &outcome {
            self.apply(calls);
        }
        outcome
    }

    fn create_lending_pool(&mut self, who: u64, id: u32, asset: u32, balance: u128) -> Result<Vec<TokenCall>, Error> {
        let outcome = self.lending.do_create_lending_pool(&self.tokens, who, id, asset, balance, self.now);
        self.done(outcome)
    }

    fn activate_lending_pool(&mut self, asset: u32) -> Result<(), Error> {
        self.lending.do_activate_lending_pool(asset)
    }

    fn supply(&mut self, who: u64, asset: u32, balance: u128) -> Result<Vec<TokenCall>, Error> {
        let outcome = self.lending.do_supply(&self.tokens, who, asset, balance, self.now);
        self.done(outcome)
    }

    fn withdraw(&mut self, who: u64, asset: u32, balance: u128) -> Result<Vec<TokenCall>, Error> {
        let outcome = self.lending.do_withdrawal(&self.tokens, who, asset, balance, self.now);
        self.done(outcome)
    }

    fn borrow(&mut self, who: u64, asset: u32, balance: u128, collateral_asset: u32, collateral_balance: u128) -> Result<Vec<TokenCall>, Error> {
        let outcome = self.lending.do_borrow(&self.tokens, who, asset, balance, collateral_asset, collateral_balance, self.now);
        self.done(outcome)
    }

    /// Borrows against the collateral that the ledger estimates for the loan.
    fn borrow_estimated(&mut self, who: u64, asset: u32, balance: u128, collateral_asset: u32) -> Result<Vec<TokenCall>, Error> {
        let collateral = self.lending.estimate_collateral_amount(asset, balance, collateral_asset)?;
        self.borrow(who, asset, balance, collateral_asset, collateral)
    }

    fn repay(&mut self, who: u64, asset: u32, balance: u128, collateral_asset: u32) -> Result<Vec<TokenCall>, Error> {
        let outcome = self.lending.do_repay(who, asset, balance, collateral_asset, self.now);
        self.done(outcome)
    }

    fn set_asset_price(&mut self, asset_1: u32, asset_2: u32, price: Rate) -> Result<(), Error> {
        self.lending.set_asset_price(asset_1, asset_2, price)
    }

    fn setup_active_pool(&mut self, asset: u32, initial_balance: u128) {
        assert!(self.create_lending_pool(ALICE, LENDING_POOL_TOKEN, asset, initial_balance).is_ok());
        assert_eq!(self.activate_lending_pool(asset), Ok(()));
    }

    fn run_to_block(&mut self, n: u64) {
        if n > self.block {
            self.now += (n - self.block) * BLOCK_TIME;
            self.block = n;
        }
    }

    fn pool(&self, asset: u32) -> Option<LendingPool> {
        self.lending.reserve_pools(AssetPool::from(asset))
    }
}

#[allow(dead_code)]
fn rational(n: u128, d: u128) -> Rate {
    Rate::checked_from_rational(n, d).unwrap()
}

#[allow(dead_code)]
fn minted(calls: &Vec<TokenCall>) -> Option<(u32, u64, u128)> {
    calls.iter().find_map(|call| match *call {
        TokenCall::MintInto { asset, who, amount } => Some((asset, who, amount)),
        _ => None,
    })
}

const NEW_ASSET: u32 = 8888;

// ---- creating and activating pools ----

#[test]
fn test_create_lending_pool_succeeds_for_new_asset() {
    let mut ext = Ext::build(vec![(NEW_ASSET, ALICE, 1_000_000)]);
    let amount = 1_000;
    let calls = ext.create_lending_pool(ALICE, LENDING_POOL_TOKEN, NEW_ASSET, amount).unwrap();

    assert!(ext.pool(NEW_ASSET).is_some());
    // the deposit goes into custody, the share token is created and minted
    assert_eq!(
        calls,
        vec![
            TokenCall::Transfer {
                asset: NEW_ASSET,
                source: ALICE,
                dest: CUSTODY,
                amount,
                preservation: Preservation::Expendable,
            },
            TokenCall::Create { id: LENDING_POOL_TOKEN, admin: CUSTODY },
            TokenCall::MintInto { asset: LENDING_POOL_TOKEN, who: ALICE, amount },
        ]
    );
    assert_eq!(minted(&calls), Some((LENDING_POOL_TOKEN, ALICE, amount)));
}

#[test]
fn test_create_lending_pool_fails_for_existing_asset() {
    let mut ext = Ext::build(vec![(DOT, ALICE, 1_000_000)]);
    // First creation should succeed
    assert!(ext.create_lending_pool(ALICE, LENDING_POOL_TOKEN, DOT, 1_000).is_ok());

    // Second creation should fail
    assert_eq!(
        ext.create_lending_pool(ALICE, LENDING_POOL_TOKEN + 1, DOT, 1_000),
        Err(Error::LendingPoolAlreadyExists)
    );
}

#[test]
fn test_create_lending_pool_fails_with_zero_amount() {
    let mut ext = Ext::build(vec![(DOT, ALICE, 1_000_000)]);
    assert_eq!(
        ext.create_lending_pool(ALICE, LENDING_POOL_TOKEN, DOT, 0),
        Err(Error::InvalidLiquiditySupply)
    );
}

#[test]
fn test_create_lending_pool_fails_with_insufficient_balance() {
    let mut ext = Ext::build(vec![]);
    assert_eq!(
        ext.create_lending_pool(ALICE, LENDING_POOL_TOKEN, DOT, 1_000),
        Err(Error::NotEnoughLiquiditySupply)
    );
}

#[test]
fn test_create_lending_pool_fails_with_existing_id() {
    let mut ext = Ext::build(vec![(DOT, ALICE, 1_000_000), (KSM, ALICE, 1_000_000)]);
    // First creation should succeed
    assert!(ext.create_lending_pool(ALICE, LENDING_POOL_TOKEN, DOT, 1_000).is_ok());

    // Creation with the same LENDING_POOL_TOKEN should fail
    assert_eq!(
        ext.create_lending_pool(ALICE, LENDING_POOL_TOKEN, KSM, 1_000),
        Err(Error::IdAlreadyExists)
    );
}

#[test]
fn test_activate_fails_for_non_existent_lending_pool() {
    let mut ext = Ext::build(vec![(DOT, ALICE, 1_000_000)]);
    assert_eq!(ext.activate_lending_pool(DOT), Err(Error::LendingPoolDoesNotExist));
}

#[test]
fn test_activate_fails_for_already_activated_lending_pool() {
    let mut ext = Ext::build(vec![(DOT, ALICE, 1_000_000)]);
    assert!(ext.create_lending_pool(ALICE, LENDING_POOL_TOKEN, DOT, 1_000).is_ok());

    ext.activate_lending_pool(DOT).unwrap();
    assert_eq!(ext.activate_lending_pool(DOT), Err(Error::LendingPoolAlreadyActivated));
}

#[test]
fn create_lending_pool_for_new_asset_works() {
    let mut ext = Ext::build(vec![(NEW_ASSET, ALICE, 1_000_000)]);
    assert!(ext.create_lending_pool(ALICE, LENDING_POOL_TOKEN, NEW_ASSET, 1_000).is_ok());

    assert!(ext.pool(NEW_ASSET).is_some());
    assert_eq!(ext.pool(NEW_ASSET).unwrap().reserve_balance, 1_000);
}

#[test]
fn create_lending_pool_for_existing_asset_fails() {
    let mut ext = Ext::build(vec![(DOT, ALICE, 1_000_000)]);
    assert!(ext.create_lending_pool(ALICE, LENDING_POOL_TOKEN, DOT, 1_000).is_ok());
    assert_eq!(
        ext.create_lending_pool(ALICE, LENDING_POOL_TOKEN + 1, DOT, 1_000),
        Err(Error::LendingPoolAlreadyExists)
    );
}

#[test]
fn create_lending_pool_with_existing_id_fails() {
    let mut ext = Ext::build(vec![(DOT, ALICE, 1_000_000), (KSM, ALICE, 1_000_000)]);
    assert!(ext.create_lending_pool(ALICE, LENDING_POOL_TOKEN, DOT, 1_000).is_ok());
    assert_eq!(
        ext.create_lending_pool(ALICE, LENDING_POOL_TOKEN, KSM, 1_000),
        Err(Error::IdAlreadyExists)
    );
}

#[test]
fn create_lending_pool_and_supply_not_yet_active() {
    let mut ext = Ext::build(vec![(DOT, ALICE, 1_000_000)]);
    assert!(ext.create_lending_pool(ALICE, LENDING_POOL_TOKEN, DOT, 1_000).is_ok());
    assert_eq!(ext.supply(ALICE, DOT, 1_000), Err(Error::LendingPoolNotActive));
}

#[test]
fn create_lending_pool_and_supply_active() {
    let mut ext = Ext::build(vec![(DOT, ALICE, 1_000_000)]);
    assert!(ext.create_lending_pool(ALICE, LENDING_POOL_TOKEN, DOT, 1_000).is_ok());
    assert_eq!(ext.supply(ALICE, DOT, 1_000), Err(Error::LendingPoolNotActive));

    ext.activate_lending_pool(DOT).unwrap();
    assert!(ext.supply(ALICE, DOT, 1_000).is_ok());
}

#[test]
fn pool_management_try_to_supply_no_lending_pool() {
    let mut ext = Ext::build(vec![(DOT, ALICE, 1_000_000)]);
    assert_eq!(ext.supply(ALICE, DOT, 1_000), Err(Error::LendingPoolDoesNotExist));
}

#[test]
fn pool_management_try_to_supply_no_liquidity() {
    let mut ext = Ext::build(vec![]);
    assert_eq!(ext.supply(BOB, DOT, 1_000), Err(Error::NotEnoughLiquiditySupply));
}

#[test]
fn tests_try_to_supply_no_lending_pool() {
    let mut ext = Ext::build(vec![(DOT, ALICE, 1_000_000)]);
    assert_eq!(ext.supply(ALICE, DOT, 1_000), Err(Error::LendingPoolDoesNotExist));
}

#[test]
fn tests_try_to_supply_no_liquidity() {
    let mut ext = Ext::build(vec![]);
    assert_eq!(ext.supply(BOB, DOT, 1_000), Err(Error::NotEnoughLiquiditySupply));
}

#[test]
fn tests_try_to_create_lending_pool() {
    let mut ext = Ext::build(vec![(DOT, ALICE, 1_000_000)]);
    assert!(ext.create_lending_pool(ALICE, LENDING_POOL_TOKEN, DOT, 1_000).is_ok());
}

#[test]
fn tests_try_to_create_lending_pool_and_supply_not_yet_active() {
    let mut ext = Ext::build(vec![(DOT, ALICE, 1_000_000)]);
    assert!(ext.create_lending_pool(ALICE, LENDING_POOL_TOKEN, DOT, 1_000).is_ok());
    assert_eq!(ext.supply(ALICE, DOT, 1_000), Err(Error::LendingPoolNotActive));
}

#[test]
fn try_to_create_lending_pool_and_supply_active() {
    let mut ext = Ext::build(vec![(DOT, ALICE, 1_000_000)]);
    assert!(ext.create_lending_pool(ALICE, LENDING_POOL_TOKEN, DOT, 1_000).is_ok());
    assert_eq!(ext.supply(ALICE, DOT, 1_000), Err(Error::LendingPoolNotActive));

    ext.activate_lending_pool(DOT).unwrap();
    assert!(ext.supply(ALICE, DOT, 1_000).is_ok());
}

#[test]
fn activation_needs_a_reserve() {
    let mut ext = Ext::build(vec![(DOT, ALICE, 1_000_000)]);
    assert!(ext.create_lending_pool(ALICE, LENDING_POOL_TOKEN, DOT, 1_000).is_ok());
    assert!(ext.withdraw(ALICE, DOT, 1_000).is_ok());
    assert_eq!(ext.pool(DOT).unwrap().reserve_balance, 0);
    assert_eq!(ext.activate_lending_pool(DOT), Err(Error::LendingPoolIsEmpty));
}

#[test]
fn deactivation_flips_the_pool_back() {
    let mut ext = Ext::build(vec![(DOT, ALICE, 1_000_000), (DOT, BOB, 1_000_000)]);
    assert_eq!(ext.lending.do_deactivate_lending_pool(DOT), Err(Error::LendingPoolDoesNotExist));
    assert!(ext.create_lending_pool(ALICE, LENDING_POOL_TOKEN, DOT, 1_000).is_ok());
    assert_eq!(
        ext.lending.do_deactivate_lending_pool(DOT),
        Err(Error::LendingPoolAlreadyDeactivated)
    );
    ext.activate_lending_pool(DOT).unwrap();
    assert!(ext.pool(DOT).unwrap().activated);
    assert!(ext.supply(BOB, DOT, 500).is_ok());
    assert_eq!(ext.lending.do_deactivate_lending_pool(DOT), Ok(()));
    assert!(!ext.pool(DOT).unwrap().activated);
    // a deactivated pool takes no deposits, but lets its depositors out
    assert_eq!(ext.supply(BOB, DOT, 500), Err(Error::LendingPoolNotActive));
    assert!(ext.withdraw(BOB, DOT, 500).is_ok());
    // and it can be activated again
    assert_eq!(ext.activate_lending_pool(DOT), Ok(()));
}

// ---- supplying and withdrawing ----

#[test]
fn test_supply_succeeds_for_activated_lending_pool() {
    let mut ext = Ext::build(vec![(DOT, ALICE, 1_000_000)]);
    let initial_dot_balance = ext.balance(DOT, ALICE);
    let pallet_initial_dot_balance = ext.pallet_balance(DOT);
    let amount = 1_000;
    let supply_amount = 500;
    let created = ext.create_lending_pool(ALICE, LENDING_POOL_TOKEN, DOT, amount).unwrap();
    assert_eq!(ext.supply(ALICE, DOT, supply_amount), Err(Error::LendingPoolNotActive));

    ext.activate_lending_pool(DOT).unwrap();
    // Check the pool storage for activated bool
    let pool = ext.pool(DOT).unwrap();
    assert!(pool.activated);
    assert!(ext.supply(ALICE, DOT, supply_amount).is_ok());
    // the shares minted at creation
    assert_eq!(minted(&created), Some((LENDING_POOL_TOKEN, ALICE, amount)));
    // Check final balances
    assert_eq!(ext.balance(DOT, ALICE), initial_dot_balance - amount - supply_amount);
    assert_eq!(ext.pallet_balance(DOT), pallet_initial_dot_balance + amount + supply_amount);
    assert_eq!(ext.balance(LENDING_POOL_TOKEN, ALICE), amount + supply_amount);
    // Check pool storage for updated values
    let pool = ext.pool(DOT).unwrap();
    assert_eq!(pool.reserve_balance, amount + supply_amount);
}

#[test]
fn test_supply_fails_with_zero_amount() {
    let mut ext = Ext::build(vec![(DOT, ALICE, 1_000_000)]);
    assert!(ext.create_lending_pool(ALICE, LENDING_POOL_TOKEN, DOT, 1_000).is_ok());
    ext.activate_lending_pool(DOT).unwrap();
    assert_eq!(ext.supply(ALICE, DOT, 0), Err(Error::InvalidLiquiditySupply));
}

#[test]
fn test_supply_fails_with_insufficient_balance() {
    let mut ext = Ext::build(vec![(DOT, ALICE, 1_000_000)]);
    let amount = 1_000;
    assert!(ext.create_lending_pool(ALICE, LENDING_POOL_TOKEN, DOT, amount).is_ok());
    ext.activate_lending_pool(DOT).unwrap();
    assert_eq!(ext.supply(BOB, DOT, amount), Err(Error::NotEnoughLiquiditySupply));
}

#[test]
fn test_supply_fails_for_nonexistent_lending_pool() {
    let mut ext = Ext::build(vec![(DOT, ALICE, 1_000_000)]);
    assert_eq!(ext.supply(ALICE, DOT, 1_000), Err(Error::LendingPoolDoesNotExist));
}

#[test]
fn test_supply_fails_for_inactive_lending_pool() {
    let mut ext = Ext::build(vec![(DOT, ALICE, 1_000_000)]);
    assert!(ext.create_lending_pool(ALICE, LENDING_POOL_TOKEN, DOT, 1_000).is_ok());
    assert_eq!(ext.supply(ALICE, DOT, 1_000), Err(Error::LendingPoolNotActive));
}

#[test]
fn test_supply_succeeds_for_active_pool() {
    let mut ext = Ext::build(vec![(DOT, ALICE, 1_000_000), (DOT, BOB, 1_000_000)]);
    ext.setup_active_pool(DOT, 1000);
    let calls = ext.supply(BOB, DOT, 500).unwrap();
    assert_eq!(
        calls[0],
        TokenCall::Transfer {
            asset: DOT,
            source: BOB,
            dest: CUSTODY,
            amount: 500,
            preservation: Preservation::Expendable,
        }
    );
}

#[test]
fn test_supply_fails_for_inactive_pool() {
    let mut ext = Ext::build(vec![(DOT, ALICE, 1_000_000), (DOT, BOB, 1_000_000)]);
    assert!(ext.create_lending_pool(ALICE, LENDING_POOL_TOKEN, DOT, 1000).is_ok());
    assert_eq!(ext.supply(BOB, DOT, 500), Err(Error::LendingPoolNotActive));
}

#[test]
fn test_withdraw_all_tokens_succeeds() {
    let mut ext = Ext::build(vec![(DOT, ALICE, 1_000_000), (DOT, BOB, 1_000_000)]);
    ext.setup_active_pool(DOT, 1000);
    assert!(ext.supply(BOB, DOT, 500).is_ok());

    let initial_dot_balance = ext.balance(DOT, BOB);
    let pallet_initial_dot_balance = ext.pallet_balance(DOT);
    let withdraw_amount = 500;
    assert!(ext.withdraw(BOB, DOT, withdraw_amount).is_ok());

    // Check final balances
    assert_eq!(ext.balance(DOT, BOB), initial_dot_balance + withdraw_amount);
    assert_eq!(ext.pallet_balance(DOT), pallet_initial_dot_balance - withdraw_amount);

    // Check that LP token was burned
    assert_eq!(ext.balance(LENDING_POOL_TOKEN, BOB), 0);

    // Check that reserve balance has been updated in storage
    let pool = ext.pool(DOT).unwrap();
    assert_eq!(pool.reserve_balance, 1_000);
}

#[test]
fn test_withdraw_fails_with_insufficient_eligibility() {
    let mut ext = Ext::build(vec![(DOT, ALICE, 1_000_000), (DOT, BOB, 1_000_000)]);
    ext.setup_active_pool(DOT, 1000);
    assert!(ext.supply(BOB, DOT, 500).is_ok());
    assert_eq!(ext.withdraw(BOB, DOT, 501), Err(Error::NotEnoughEligibleLiquidityToWithdraw));
}

#[test]
fn test_withdraw_fails_with_insufficient_reserve() {
    let mut ext = Ext::build(vec![(DOT, ALICE, 1_000_000), (DOT, BOB, 1_000_000)]);
    ext.setup_active_pool(DOT, 1000);
    assert_eq!(ext.withdraw(BOB, DOT, 1500), Err(Error::NotEnoughLiquiditySupply));
}

#[test]
fn test_withdraw_fails_with_zero_amount() {
    let mut ext = Ext::build(vec![(DOT, ALICE, 1_000_000), (DOT, BOB, 1_000_000)]);
    ext.setup_active_pool(DOT, 1000);
    assert!(ext.supply(BOB, DOT, 500).is_ok());
    assert_eq!(ext.withdraw(BOB, DOT, 0), Err(Error::InvalidLiquidityWithdrawal));
}

#[test]
fn test_withdraw_fails_for_nonexistent_lending_pool() {
    let mut ext = Ext::build(vec![(DOT, ALICE, 1_000_000), (DOT, BOB, 1_000_000)]);
    assert_eq!(ext.withdraw(BOB, DOT, 500), Err(Error::LendingPoolDoesNotExist));
}

#[test]
fn test_partial_withdraw_succeeds() {
    let mut ext = Ext::build(vec![(DOT, ALICE, 1_000_000), (DOT, BOB, 1_000_000)]);
    ext.setup_active_pool(DOT, 1000);
    assert!(ext.supply(BOB, DOT, 500).is_ok());
    let calls = ext.withdraw(BOB, DOT, 250).unwrap();
    assert_eq!(
        calls,
        vec![
            TokenCall::Transfer {
                asset: DOT,
                source: CUSTODY,
                dest: BOB,
                amount: 250,
                preservation: Preservation::Preserve,
            },
            TokenCall::BurnFrom { asset: LENDING_POOL_TOKEN, who: BOB, amount: 250 },
        ]
    );
    assert_eq!(ext.balance(LENDING_POOL_TOKEN, BOB), 250);
}

#[test]
fn deposit_tokens_into_pool() {
    let mut ext = Ext::build(vec![(DOT, ALICE, 1_000_000), (DOT, BOB, 1_000_000)]);
    ext.setup_active_pool(DOT, 1000);
    assert!(ext.supply(BOB, DOT, 500).is_ok());
    assert_eq!(ext.pool(DOT).unwrap().reserve_balance, 1500);
}

#[test]
fn deposit_tokens_into_inactive_pool_fails() {
    let mut ext = Ext::build(vec![(DOT, ALICE, 1_000_000), (DOT, BOB, 1_000_000)]);
    assert!(ext.create_lending_pool(ALICE, LENDING_POOL_TOKEN, DOT, 1000).is_ok());
    assert_eq!(ext.supply(BOB, DOT, 500), Err(Error::LendingPoolNotActive));
}

#[test]
fn redeem_all_tokens_from_pool() {
    let mut ext = Ext::build(vec![(DOT, ALICE, 1_000_000), (DOT, BOB, 1_000_000)]);
    ext.setup_active_pool(DOT, 1000);
    assert!(ext.supply(BOB, DOT, 500).is_ok());
    assert!(ext.withdraw(BOB, DOT, 500).is_ok());
    assert_eq!(ext.balance(DOT, BOB), 1_000_000);
}

#[test]
fn redeem_partial_tokens_from_pool() {
    let mut ext = Ext::build(vec![(DOT, ALICE, 1_000_000), (DOT, BOB, 1_000_000)]);
    ext.setup_active_pool(DOT, 1000);
    assert!(ext.supply(BOB, DOT, 500).is_ok());
    assert!(ext.withdraw(BOB, DOT, 250).is_ok());
    assert_eq!(ext.balance(DOT, BOB), 1_000_000 - 250);
}

#[test]
fn a_later_deposit_earns_the_interest_on_the_shares_held() {
    let mut ext = Ext::build(vec![
        (DOT, ALICE, 1_000_000),
        (DOT, BOB, 1_000_000),
        (KSM, BOB, 1_000_000),
    ]);
    ext.setup_active_pool(DOT, 100_000);
    assert_eq!(ext.set_asset_price(DOT, KSM, rational(1, 1)), Ok(()));
    assert!(ext.borrow(BOB, DOT, 50_000, KSM, 100_000).is_ok());
    // a year later the supply index has grown
    ext.now += 31_536_000;
    let calls = ext.supply(ALICE, DOT, 10_000).unwrap();
    let pool = ext.pool(DOT).unwrap();
    assert!(pool.supply_index > Rate::one());
    let scaled = pool.scaled_supply_balance(10_000).unwrap();
    assert!(scaled < 10_000);
    let growth = pool.supply_index.checked_sub(&Rate::one()).unwrap();
    let interest = lending::pool::multiply_amount(growth, 100_000).unwrap();
    assert!(interest > 0);
    assert_eq!(minted(&calls), Some((LENDING_POOL_TOKEN, ALICE, scaled + interest)));
    assert_eq!(ext.balance(LENDING_POOL_TOKEN, ALICE), 100_000 + scaled + interest);
    // a second deposit at the same time earns no more interest
    let calls = ext.supply(ALICE, DOT, 10_000).unwrap();
    assert_eq!(minted(&calls), Some((LENDING_POOL_TOKEN, ALICE, scaled)));
}

#[test]
fn update_and_mint_notes_the_index() {
    let mut ext = Ext::build(vec![(DOT, ALICE, 1_000_000)]);
    ext.set(LENDING_POOL_TOKEN, ALICE, 1_000);
    let index = rational(11, 10);
    let call = ext.lending.update_and_mint(&ext.tokens, ALICE, DOT, LENDING_POOL_TOKEN, 500, index, 7);
    // the whole index counts as growth for an account that never minted
    assert_eq!(call, Ok(TokenCall::MintInto { asset: LENDING_POOL_TOKEN, who: ALICE, amount: 500 + 1_100 }));
    let call = ext.lending.update_and_mint(&ext.tokens, ALICE, DOT, LENDING_POOL_TOKEN, 500, index, 8);
    assert_eq!(call, Ok(TokenCall::MintInto { asset: LENDING_POOL_TOKEN, who: ALICE, amount: 500 }));
    // an index below the one noted is an error
    let call = ext.lending.update_and_mint(&ext.tokens, ALICE, DOT, LENDING_POOL_TOKEN, 500, Rate::one(), 9);
    assert_eq!(call, Err(Error::OverflowError));
    let call = ext.lending.update_and_mint(&ext.tokens, ALICE, DOT, LENDING_POOL_TOKEN, u128::MAX, rational(12, 10), 9);
    assert_eq!(call, Err(Error::OverflowError));
}

#[test]
fn a_failed_operation_changes_nothing() {
    let mut ext = Ext::build(vec![(DOT, ALICE, 1_000_000), (DOT, BOB, 1_000_000), (KSM, BOB, 1_000_000)]);
    ext.setup_active_pool(DOT, 1000);
    assert_eq!(ext.set_asset_price(DOT, KSM, rational(1, 1)), Ok(()));
    assert!(ext.borrow(BOB, DOT, 400, KSM, 1000).is_ok());
    let pool = ext.pool(DOT).unwrap();
    let loan = ext.lending.borrow_of(BOB, DOT, KSM);
    ext.now += 1000;
    assert_eq!(ext.supply(BOB, DOT, 0), Err(Error::InvalidLiquiditySupply));
    assert_eq!(ext.withdraw(BOB, DOT, 700), Err(Error::NotEnoughLiquiditySupply));
    assert_eq!(ext.withdraw(BOB, DOT, 100), Err(Error::NotEnoughEligibleLiquidityToWithdraw));
    assert_eq!(ext.borrow(BOB, DOT, 500, KSM, 100), Err(Error::NotEnoughCollateral));
    assert_eq!(ext.repay(BOB, DOT, 0, KSM), Err(Error::InvalidLiquidityWithdrawal));
    assert_eq!(ext.repay(ALICE, DOT, 10, KSM), Err(Error::LoanDoesNotExists));
    assert_eq!(ext.pool(DOT), Some(pool));
    assert_eq!(ext.lending.borrow_of(BOB, DOT, KSM), loan);
}

// ---- borrowing and repaying ----

#[test]
fn core_operations_borrow_maximum_allowed_tokens_from_pool() {
    let mut ext = Ext::build(vec![
        (DOT, ALICE, 1_000_000),
        (DOT, BOB, 1_000_000),
        (KSM, BOB, 1_000_000),
    ]);
    // Setup and activate the DOT lending pool
    ext.setup_active_pool(DOT, 1000);
    let bob_initial_ksm_balance = ext.balance(KSM, BOB);
    let bob_initial_dot_balance = ext.balance(DOT, BOB);

    let pallet_initial_dot_balance = ext.pallet_balance(DOT);
    let pallet_initial_ksm_balance = ext.pallet_balance(KSM);

    // Verify that the DOT pool exists
    assert!(ext.pool(DOT).is_some(), "DOT pool should exist");

    let price = rational(1, 1);
    let ksm_collateral_amount = 1_000;
    let dot_borrow_amount = 500;
    assert_eq!(ext.set_asset_price(DOT, KSM, price), Ok(()));

    // Should be unable to borrow more than 50% of the liquidity
    assert_eq!(
        ext.borrow(BOB, DOT, dot_borrow_amount + 1, KSM, ksm_collateral_amount),
        Err(Error::NotEnoughCollateral)
    );

    // BOB borrows 500 DOT using 1000 KSM as collateral
    let calls = ext.borrow(BOB, DOT, dot_borrow_amount, KSM, ksm_collateral_amount).unwrap();
    assert_eq!(
        calls,
        vec![
            TokenCall::Transfer {
                asset: DOT,
                source: CUSTODY,
                dest: BOB,
                amount: dot_borrow_amount,
                preservation: Preservation::Preserve,
            },
            TokenCall::Transfer {
                asset: KSM,
                source: BOB,
                dest: CUSTODY,
                amount: ksm_collateral_amount,
                preservation: Preservation::Preserve,
            },
        ]
    );

    assert_eq!(ext.balance(KSM, BOB), bob_initial_ksm_balance - ksm_collateral_amount);
    assert_eq!(ext.balance(DOT, BOB), bob_initial_dot_balance + dot_borrow_amount);

    // - Verify the lending pool's state changed correctly
    assert_eq!(ext.pallet_balance(DOT), pallet_initial_dot_balance - dot_borrow_amount);
    assert_eq!(ext.pallet_balance(KSM), pallet_initial_ksm_balance + ksm_collateral_amount);
}

#[test]
fn core_operations_borrow_partial_amount_of_tokens_from_pool() {
    let mut ext = Ext::build(vec![
        (DOT, ALICE, 1_000_000),
        (DOT, BOB, 1_000_000),
        (KSM, BOB, 2_000_000),
    ]);
    ext.setup_active_pool(DOT, 1000);
    let bob_initial_ksm_balance = ext.balance(KSM, BOB);
    let bob_initial_dot_balance = ext.balance(DOT, BOB);

    let pallet_initial_dot_balance = ext.pallet_balance(DOT);
    let pallet_initial_ksm_balance = ext.pallet_balance(KSM);

    assert!(ext.pool(DOT).is_some(), "DOT pool should exist");

    // Set price: 1 DOT = 0.1 KSM
    let price = rational(1, 10);
    assert_eq!(ext.set_asset_price(DOT, KSM, price), Ok(()));

    // First borrow: partial amount
    let ksm_collateral_amount_1 = 500;
    let dot_borrow_amount_1 = 250;
    assert!(ext.borrow(BOB, DOT, dot_borrow_amount_1, KSM, ksm_collateral_amount_1).is_ok());

    // Verify balances after first borrow
    assert_eq!(ext.balance(KSM, BOB), bob_initial_ksm_balance - ksm_collateral_amount_1);
    assert_eq!(ext.balance(DOT, BOB), bob_initial_dot_balance + dot_borrow_amount_1);
    assert_eq!(ext.pallet_balance(DOT), pallet_initial_dot_balance - dot_borrow_amount_1);
    assert_eq!(ext.pallet_balance(KSM), pallet_initial_ksm_balance + ksm_collateral_amount_1);

    // Second borrow: another partial amount with additional collateral
    let ksm_collateral_amount_2 = 500;
    let dot_borrow_amount_2 = 250;
    assert!(ext.borrow(BOB, DOT, dot_borrow_amount_2, KSM, ksm_collateral_amount_2).is_ok());

    // Final balance checks
    assert_eq!(
        ext.balance(KSM, BOB),
        bob_initial_ksm_balance - ksm_collateral_amount_1 - ksm_collateral_amount_2
    );
    assert_eq!(
        ext.balance(DOT, BOB),
        bob_initial_dot_balance + dot_borrow_amount_1 + dot_borrow_amount_2
    );
    assert_eq!(
        ext.pallet_balance(DOT),
        pallet_initial_dot_balance - dot_borrow_amount_1 - dot_borrow_amount_2
    );
    assert_eq!(
        ext.pallet_balance(KSM),
        pallet_initial_ksm_balance + ksm_collateral_amount_1 + ksm_collateral_amount_2
    );
    // the two borrows make one loan
    let loan = ext.lending.borrow_of(BOB, DOT, KSM).unwrap();
    assert_eq!(loan.borrowed_balance, 500);
    assert_eq!(loan.collateral_balance, 1000);
}

#[test]
fn core_operations_repay_all_borrowed_tokens_to_pool() {
    let mut ext = Ext::build(vec![
        (DOT, ALICE, 1_000_000),
        (KSM, BOB, 1_000_000),
        (DOT, BOB, 1_000_000),
    ]);
    ext.setup_active_pool(DOT, 1000);

    // Record initial balances
    let bob_initial_ksm_balance = ext.balance(KSM, BOB);
    let bob_initial_dot_balance = ext.balance(DOT, BOB);
    let pallet_initial_dot_balance = ext.pallet_balance(DOT);
    let pallet_initial_ksm_balance = ext.pallet_balance(KSM);

    assert!(ext.pool(DOT).is_some(), "DOT pool should exist");

    // Set price: 1 DOT = 1 KSM for simplicity
    let price = rational(1, 1);
    assert_eq!(ext.set_asset_price(DOT, KSM, price), Ok(()));

    // Borrow 500 DOT using 1000 KSM as collateral
    let ksm_collateral_amount = 1000;
    let dot_borrow_amount = 500;
    assert!(ext.borrow(BOB, DOT, dot_borrow_amount, KSM, ksm_collateral_amount).is_ok());

    // Verify balances after borrowing
    assert_eq!(ext.balance(KSM, BOB), bob_initial_ksm_balance - ksm_collateral_amount);
    assert_eq!(ext.balance(DOT, BOB), bob_initial_dot_balance + dot_borrow_amount);

    // Repay all borrowed DOT
    assert!(ext.repay(BOB, DOT, dot_borrow_amount, KSM).is_ok());

    // Verify final balances
    // BOB's KSM balance should be back to initial (collateral returned)
    assert_eq!(ext.balance(KSM, BOB), bob_initial_ksm_balance);
    // BOB's DOT balance should be back to initial
    assert_eq!(ext.balance(DOT, BOB), bob_initial_dot_balance);
    // Pallet's DOT balance should be back to initial
    assert_eq!(ext.pallet_balance(DOT), pallet_initial_dot_balance);
    // Pallet's KSM balance should be back to initial
    assert_eq!(ext.pallet_balance(KSM), pallet_initial_ksm_balance);

    // Verify that BOB can't repay more (since the loan is fully repaid)
    assert_eq!(ext.repay(BOB, DOT, 1, KSM), Err(Error::LoanDoesNotExists));
}

#[test]
fn borrow_repay_borrow_maximum_allowed_tokens_from_pool() {
    let mut ext = Ext::build(vec![
        (DOT, ALICE, 1_000_000),
        (DOT, BOB, 1_000_000),
        (KSM, BOB, 1_000_000),
    ]);
    ext.setup_active_pool(DOT, 1000);
    let bob_initial_ksm_balance = ext.balance(KSM, BOB);
    let bob_initial_dot_balance = ext.balance(DOT, BOB);

    let pallet_initial_dot_balance = ext.pallet_balance(DOT);
    let pallet_initial_ksm_balance = ext.pallet_balance(KSM);

    assert!(ext.pool(DOT).is_some(), "DOT pool should exist");

    let price = rational(1, 1);
    let dot_borrow_amount = 500;
    assert_eq!(ext.set_asset_price(DOT, KSM, price), Ok(()));

    let ksm_collateral_amount =
        ext.lending.estimate_collateral_amount(DOT, dot_borrow_amount, KSM).unwrap();
    assert_eq!(ksm_collateral_amount, 1000);

    // BOB borrows 500 DOT using 1000 KSM as collateral
    assert!(ext.borrow_estimated(BOB, DOT, dot_borrow_amount, KSM).is_ok());

    assert_eq!(ext.balance(KSM, BOB), bob_initial_ksm_balance - ksm_collateral_amount);
    assert_eq!(ext.balance(DOT, BOB), bob_initial_dot_balance + dot_borrow_amount);

    assert_eq!(ext.pallet_balance(DOT), pallet_initial_dot_balance - dot_borrow_amount);
    assert_eq!(ext.pallet_balance(KSM), pallet_initial_ksm_balance + ksm_collateral_amount);
}

#[test]
fn borrow_repay_borrow_partial_amount_of_tokens_from_pool() {
    let mut ext = Ext::build(vec![
        (DOT, ALICE, 1_000_000),
        (DOT, BOB, 1_000_000),
        (KSM, BOB, 2_000_000),
    ]);
    ext.setup_active_pool(DOT, 1000);
    let bob_initial_ksm_balance = ext.balance(KSM, BOB);
    let bob_initial_dot_balance = ext.balance(DOT, BOB);

    let pallet_initial_dot_balance = ext.pallet_balance(DOT);
    let pallet_initial_ksm_balance = ext.pallet_balance(KSM);

    // Set price: 1 DOT = 0.1 KSM
    let price = rational(1, 10);
    assert_eq!(ext.set_asset_price(DOT, KSM, price), Ok(()));

    // First borrow: partial amount
    let dot_borrow_amount_1 = 250;
    let ksm_collateral_amount_1 =
        ext.lending.estimate_collateral_amount(DOT, dot_borrow_amount_1, KSM).unwrap();
    assert!(ext.borrow_estimated(BOB, DOT, dot_borrow_amount_1, KSM).is_ok());

    assert_eq!(ext.balance(KSM, BOB), bob_initial_ksm_balance - ksm_collateral_amount_1);
    assert_eq!(ext.balance(DOT, BOB), bob_initial_dot_balance + dot_borrow_amount_1);
    assert_eq!(ext.pallet_balance(DOT), pallet_initial_dot_balance - dot_borrow_amount_1);
    assert_eq!(ext.pallet_balance(KSM), pallet_initial_ksm_balance + ksm_collateral_amount_1);

    // Second borrow: another partial amount with additional collateral
    let dot_borrow_amount_2 = 250;
    let ksm_collateral_amount_2 =
        ext.lending.estimate_collateral_amount(DOT, dot_borrow_amount_2, KSM).unwrap();
    assert!(ext.borrow_estimated(BOB, DOT, dot_borrow_amount_2, KSM).is_ok());

    assert_eq!(
        ext.balance(KSM, BOB),
        bob_initial_ksm_balance - ksm_collateral_amount_1 - ksm_collateral_amount_2
    );
    assert_eq!(
        ext.balance(DOT, BOB),
        bob_initial_dot_balance + dot_borrow_amount_1 + dot_borrow_amount_2
    );
    assert_eq!(
        ext.pallet_balance(DOT),
        pallet_initial_dot_balance - dot_borrow_amount_1 - dot_borrow_amount_2
    );
    assert_eq!(
        ext.pallet_balance(KSM),
        pallet_initial_ksm_balance + ksm_collateral_amount_1 + ksm_collateral_amount_2
    );
}

#[test]
fn borrow_repay_repay_all_borrowed_tokens_to_pool() {
    let mut ext = Ext::build(vec![
        (DOT, ALICE, 1_000_000),
        (KSM, BOB, 1_000_000),
        (DOT, BOB, 1_000_000),
    ]);
    ext.setup_active_pool(DOT, 1000);

    let bob_initial_ksm_balance = ext.balance(KSM, BOB);
    let bob_initial_dot_balance = ext.balance(DOT, BOB);
    let pallet_initial_dot_balance = ext.pallet_balance(DOT);
    let pallet_initial_ksm_balance = ext.pallet_balance(KSM);

    let price = rational(1, 1);
    assert_eq!(ext.set_asset_price(DOT, KSM, price), Ok(()));

    // Borrow 500 DOT using 1000 KSM as collateral
    let ksm_collateral_amount = 1000;
    let dot_borrow_amount = 500;
    assert!(ext.borrow_estimated(BOB, DOT, dot_borrow_amount, KSM).is_ok());

    assert_eq!(ext.balance(KSM, BOB), bob_initial_ksm_balance - ksm_collateral_amount);
    assert_eq!(ext.balance(DOT, BOB), bob_initial_dot_balance + dot_borrow_amount);

    // Repay all borrowed DOT
    let calls = ext.repay(BOB, DOT, dot_borrow_amount, KSM).unwrap();
    assert_eq!(
        calls,
        vec![
            TokenCall::Transfer {
                asset: DOT,
                source: BOB,
                dest: CUSTODY,
                amount: dot_borrow_amount,
                preservation: Preservation::Preserve,
            },
            TokenCall::Transfer {
                asset: KSM,
                source: CUSTODY,
                dest: BOB,
                amount: ksm_collateral_amount,
                preservation: Preservation::Preserve,
            },
        ]
    );

    assert_eq!(ext.pallet_balance(DOT), pallet_initial_dot_balance);
    assert_eq!(ext.pallet_balance(KSM), pallet_initial_ksm_balance);
    assert_eq!(ext.lending.borrow_of(BOB, DOT, KSM), None);
    assert_eq!(ext.pool(DOT).unwrap().reserve_balance, 1000);
}

#[test]
fn partial_repay_of_borrowed_tokens() {
    let mut ext = Ext::build(vec![
        (DOT, ALICE, 1_000_000),
        (KSM, BOB, 1_000_000),
        (DOT, BOB, 1_000_000),
    ]);
    ext.setup_active_pool(DOT, 1000);

    let bob_initial_ksm_balance = ext.balance(KSM, BOB);
    let bob_initial_dot_balance = ext.balance(DOT, BOB);
    let pallet_initial_dot_balance = ext.pallet_balance(DOT);
    let pallet_initial_ksm_balance = ext.pallet_balance(KSM);

    let price = rational(1, 1);
    assert_eq!(ext.set_asset_price(DOT, KSM, price), Ok(()));

    // Borrow 500 DOT using 1000 KSM as collateral
    let ksm_collateral_amount = 1000;
    let dot_borrow_amount = 500;
    assert!(ext.borrow_estimated(BOB, DOT, dot_borrow_amount, KSM).is_ok());

    assert_eq!(ext.balance(KSM, BOB), bob_initial_ksm_balance - ksm_collateral_amount);
    assert_eq!(ext.balance(DOT, BOB), bob_initial_dot_balance + dot_borrow_amount);

    // Partial repayment: BOB repays 200 DOT
    let repayment_amount = 200;
    let calls = ext.repay(BOB, DOT, repayment_amount, KSM).unwrap();
    // 400 KSM are released
    assert_eq!(
        calls[1],
        TokenCall::Transfer {
            asset: KSM,
            source: CUSTODY,
            dest: BOB,
            amount: 400,
            preservation: Preservation::Expendable,
        }
    );

    // Verify BOB's DOT balance decreased by 200
    assert_eq!(ext.balance(DOT, BOB), bob_initial_dot_balance + dot_borrow_amount - repayment_amount);

    // Released collateral = repayment_amount / total_borrowed * collateral_balance
    let expected_collateral_release =
        (repayment_amount as u128 * ksm_collateral_amount as u128) / dot_borrow_amount as u128;

    // Verify BOB's KSM balance increased by released collateral
    assert_eq!(
        ext.balance(KSM, BOB),
        bob_initial_ksm_balance - ksm_collateral_amount + expected_collateral_release
    );

    // Verify remaining loan
    let remaining_loan = ext.lending.borrow_of(BOB, DOT, KSM).expect("Loan should exist");
    let expected_remaining_borrowed = dot_borrow_amount - repayment_amount;
    // borrow_index is 1 (no interest), so the scaled balance is the balance
    assert_eq!(remaining_loan.borrowed_balance, expected_remaining_borrowed);
    assert_eq!(
        remaining_loan.collateral_balance,
        ksm_collateral_amount - expected_collateral_release
    );

    assert_eq!(
        ext.pallet_balance(DOT),
        pallet_initial_dot_balance - dot_borrow_amount + repayment_amount
    );
    assert_eq!(
        ext.pallet_balance(KSM),
        pallet_initial_ksm_balance + ksm_collateral_amount - expected_collateral_release
    );
}

#[test]
fn repay_full_with_accumulated_interest() {
    let mut ext = Ext::build(vec![
        (DOT, ALICE, 1_000_000),
        (KSM, BOB, 1_000_000),
        (DOT, BOB, 1_000_000),
    ]);
    ext.setup_active_pool(DOT, 100_000);

    let bob_initial_ksm_balance = ext.balance(KSM, BOB);
    let bob_initial_dot_balance = ext.balance(DOT, BOB);
    let pallet_initial_dot_balance = ext.pallet_balance(DOT);
    let pallet_initial_ksm_balance = ext.pallet_balance(KSM);

    let price = rational(1, 1);
    assert_eq!(ext.set_asset_price(DOT, KSM, price), Ok(()));

    let ksm_collateral_amount = 100_000;
    let dot_borrow_amount = 50_000;
    assert!(ext.borrow_estimated(BOB, DOT, dot_borrow_amount, KSM).is_ok());

    assert_eq!(ext.balance(KSM, BOB), bob_initial_ksm_balance - ksm_collateral_amount);
    assert_eq!(ext.balance(DOT, BOB), bob_initial_dot_balance + dot_borrow_amount);

    // Simulate time passing
    let blocks_per_month = 30 * 24 * 60 * 60 / 6;
    let new_block_number = ext.block + blocks_per_month;
    ext.run_to_block(new_block_number);

    // Now, the interest should have accumulated over one month
    let mut pool = ext.pool(DOT).unwrap();
    assert_eq!(pool.update_indexes(ext.now), Ok(()));

    let loan = ext.lending.borrow_of(BOB, DOT, KSM).expect("Loan should exist");
    let repayable_amount = pool.repayable_amount(&loan).unwrap();

    // The repayable amount is greater than the initial borrowed amount
    assert!(repayable_amount > dot_borrow_amount);

    let bob_dot_balance = ext.balance(DOT, BOB);
    assert!(bob_dot_balance >= repayable_amount);

    // Repay the loan
    let calls = ext.repay(BOB, DOT, repayable_amount, KSM).unwrap();
    assert_eq!(
        calls,
        vec![
            TokenCall::Transfer {
                asset: DOT,
                source: BOB,
                dest: CUSTODY,
                amount: repayable_amount,
                preservation: Preservation::Preserve,
            },
            TokenCall::Transfer {
                asset: KSM,
                source: CUSTODY,
                dest: BOB,
                amount: ksm_collateral_amount,
                preservation: Preservation::Preserve,
            },
        ]
    );

    // BOB's KSM balance should be back to initial (collateral returned)
    assert_eq!(ext.balance(KSM, BOB), bob_initial_ksm_balance);

    // BOB's DOT balance should have decreased by repayable_amount
    assert_eq!(
        ext.balance(DOT, BOB),
        bob_initial_dot_balance + dot_borrow_amount - repayable_amount
    );

    // The difference should be the interest
    let interest_paid = repayable_amount - dot_borrow_amount;
    assert!(interest_paid > 0);

    assert_eq!(
        ext.pallet_balance(DOT),
        pallet_initial_dot_balance - dot_borrow_amount + repayable_amount
    );
    assert_eq!(ext.pallet_balance(KSM), pallet_initial_ksm_balance);
    // the reserve is what it was before the loan, plus the interest
    assert_eq!(ext.pool(DOT).unwrap().reserve_balance, 100_000 + interest_paid);
    assert_eq!(ext.lending.borrow_of(BOB, DOT, KSM), None);
}

#[test]
fn partial_repay_with_accumulated_interest() {
    let mut ext = Ext::build(vec![
        (DOT, ALICE, 1_000_000),
        (KSM, BOB, 1_000_000),
        (DOT, BOB, 1_000_000),
    ]);
    ext.setup_active_pool(DOT, 100_000);

    let bob_initial_ksm_balance = ext.balance(KSM, BOB);
    let bob_initial_dot_balance = ext.balance(DOT, BOB);
    let price = rational(1, 1);
    assert_eq!(ext.set_asset_price(DOT, KSM, price), Ok(()));

    let ksm_collateral_amount = 100_000;
    let dot_borrow_amount = 50_000;
    assert!(ext.borrow_estimated(BOB, DOT, dot_borrow_amount, KSM).is_ok());

    assert_eq!(ext.balance(KSM, BOB), bob_initial_ksm_balance - ksm_collateral_amount);
    assert_eq!(ext.balance(DOT, BOB), bob_initial_dot_balance + dot_borrow_amount);

    const SECONDS_PER_YEAR: u64 = 365 * 24 * 60 * 60;
    let blocks_per_year = SECONDS_PER_YEAR / BLOCK_TIME;
    let new_block_number = ext.block + blocks_per_year / 2; // Advance half a year
    ext.run_to_block(new_block_number);

    // The interest should have accumulated over half a year
    let mut pool = ext.pool(DOT).unwrap();
    assert_eq!(pool.update_indexes(ext.now), Ok(()));

    let mut loan = ext.lending.borrow_of(BOB, DOT, KSM).expect("Loan should exist");
    let repayable_amount = pool.repayable_amount(&loan).unwrap();

    println!("Total repayable amount: {:?}", repayable_amount);
    let partial_repayment = repayable_amount / 2;
    let bob_dot_balance = ext.balance(DOT, BOB);
    assert!(bob_dot_balance >= partial_repayment);

    let bob_dot_balance_before = bob_dot_balance;
    let bob_ksm_balance_before = ext.balance(KSM, BOB);

    // Bob makes a partial repayment
    assert!(ext.repay(BOB, DOT, partial_repayment, KSM).is_ok());

    loan = ext.lending.borrow_of(BOB, DOT, KSM).expect("Loan should still exist");

    let remaining_repayable_amount = pool.repayable_amount(&loan).unwrap();
    println!("Remaining repayable amount after partial repayment: {:?}", remaining_repayable_amount);

    // The remaining repayable amount is approximately half of what was owed
    assert!(
        remaining_repayable_amount > repayable_amount / 2 - 1_000
            && remaining_repayable_amount < repayable_amount / 2 + 1_000,
        "Remaining repayable amount should be approximately half of what was owed"
    );

    assert_eq!(ext.balance(DOT, BOB), bob_dot_balance_before - partial_repayment);

    let bob_ksm_balance_after = ext.balance(KSM, BOB);
    assert!(bob_ksm_balance_after > bob_ksm_balance_before);

    let released_collateral = bob_ksm_balance_after - bob_ksm_balance_before;
    println!("Released collateral amount: {:?}", released_collateral);
    assert!(released_collateral > 0);
    // half of what is owed releases half of the collateral, within rounding
    assert!(released_collateral <= ksm_collateral_amount / 2);
    assert!(released_collateral >= ksm_collateral_amount / 2 - 2);

    let pool = ext.pool(DOT).unwrap();
    println!("Pool's borrowed balance after repayment: {:?}", pool.borrowed_balance);
    assert!(pool.borrowed_balance < dot_borrow_amount);
}

#[test]
fn borrow_errors() {
    let mut ext = Ext::build(vec![
        (DOT, ALICE, 1_000_000),
        (DOT, BOB, 1_000_000),
        (KSM, BOB, 1_000),
    ]);
    assert_eq!(ext.borrow(BOB, DOT, 0, KSM, 10), Err(Error::InvalidLiquidityWithdrawal));
    assert_eq!(ext.borrow(BOB, DOT, 10, KSM, 0), Err(Error::InvalidLiquidityWithdrawal));
    assert_eq!(ext.borrow(BOB, DOT, 10, KSM, 20), Err(Error::LendingPoolDoesNotExist));
    assert!(ext.create_lending_pool(ALICE, LENDING_POOL_TOKEN, DOT, 1000).is_ok());
    // the last unit of KSM must stay with BOB
    assert_eq!(ext.borrow(BOB, DOT, 10, KSM, 1_000), Err(Error::NotEnoughLiquiditySupply));
    assert_eq!(ext.borrow(BOB, DOT, 10, KSM, 20), Err(Error::LendingPoolNotActive));
    ext.activate_lending_pool(DOT).unwrap();
    assert_eq!(ext.borrow(BOB, DOT, 1001, KSM, 20), Err(Error::NotEnoughLiquiditySupply));
    assert_eq!(ext.borrow(BOB, DOT, 10, KSM, 20), Err(Error::AssetPriceNotSet));
    assert_eq!(ext.set_asset_price(KSM, DOT, rational(1, 1)), Ok(()));
    assert_eq!(ext.borrow(BOB, DOT, 11, KSM, 20), Err(Error::NotEnoughCollateral));
    assert!(ext.borrow(BOB, DOT, 10, KSM, 20).is_ok());
}

#[test]
fn repay_errors() {
    let mut ext = Ext::build(vec![
        (DOT, ALICE, 1_000_000),
        (DOT, BOB, 1_000_000),
        (KSM, BOB, 1_000_000),
    ]);
    assert_eq!(ext.repay(BOB, DOT, 0, KSM), Err(Error::InvalidLiquidityWithdrawal));
    assert_eq!(ext.repay(BOB, DOT, 10, KSM), Err(Error::LendingPoolDoesNotExist));
    ext.setup_active_pool(DOT, 1000);
    assert_eq!(ext.repay(BOB, DOT, 10, KSM), Err(Error::LoanDoesNotExists));
    assert_eq!(ext.set_asset_price(DOT, KSM, rational(1, 1)), Ok(()));
    assert!(ext.borrow(BOB, DOT, 500, KSM, 1000).is_ok());
    assert_eq!(ext.repay(BOB, DOT, 10, DOT), Err(Error::LoanDoesNotExists));
    assert_eq!(ext.repay(ALICE, DOT, 10, KSM), Err(Error::LoanDoesNotExists));
}

#[test]
fn repaying_more_than_is_owed_takes_only_what_is_owed() {
    let mut ext = Ext::build(vec![
        (DOT, ALICE, 1_000_000),
        (DOT, BOB, 1_000_000),
        (KSM, BOB, 1_000_000),
    ]);
    ext.setup_active_pool(DOT, 1000);
    assert_eq!(ext.set_asset_price(DOT, KSM, rational(1, 1)), Ok(()));
    assert!(ext.borrow(BOB, DOT, 300, KSM, 1001).is_ok());
    let calls = ext.repay(BOB, DOT, 5000, KSM).unwrap();
    assert_eq!(
        calls,
        vec![
            TokenCall::Transfer {
                asset: DOT,
                source: BOB,
                dest: CUSTODY,
                amount: 300,
                preservation: Preservation::Preserve,
            },
            TokenCall::Transfer {
                asset: KSM,
                source: CUSTODY,
                dest: BOB,
                amount: 1001,
                preservation: Preservation::Preserve,
            },
        ]
    );
    assert_eq!(ext.lending.borrow_of(BOB, DOT, KSM), None);
    assert_eq!(ext.pool(DOT).unwrap().reserve_balance, 1000);
    assert_eq!(ext.pool(DOT).unwrap().borrowed_balance, 0);
}

#[test]
fn borrowing_at_the_boundary_of_the_collateral() {
    // collateral factor 50%, price 1:1
    for collateral in [2u128, 3, 1000, 1001, 99_999] {
        let mut ext = Ext::build(vec![
            (DOT, ALICE, 1_000_000),
            (DOT, BOB, 1_000_000),
            (KSM, BOB, 1_000_000),
        ]);
        ext.setup_active_pool(DOT, 100_000);
        assert_eq!(ext.set_asset_price(KSM, DOT, rational(1, 1)), Ok(()));
        assert_eq!(
            ext.borrow(BOB, DOT, collateral / 2 + 1, KSM, collateral),
            Err(Error::NotEnoughCollateral)
        );
        assert!(ext.borrow(BOB, DOT, collateral / 2, KSM, collateral).is_ok());
    }
}

#[test]
fn indexes_never_fall_over_a_sequence_of_operations() {
    let mut ext = Ext::build(vec![
        (DOT, ALICE, 10_000_000),
        (DOT, BOB, 10_000_000),
        (KSM, BOB, 10_000_000),
    ]);
    ext.setup_active_pool(DOT, 1_000_000);
    assert_eq!(ext.set_asset_price(DOT, KSM, rational(1, 1)), Ok(()));
    let mut last = ext.pool(DOT).unwrap();
    for round in 0..20u128 {
        ext.now += 100_000 * (round as u64 + 1);
        match round % 5 {
            0 => assert!(ext.borrow(BOB, DOT, 10_000 + round, KSM, 30_000).is_ok()),
            1 => assert!(ext.supply(BOB, DOT, 5_000).is_ok()),
            2 => assert!(ext.repay(BOB, DOT, 3_000, KSM).is_ok()),
            3 => assert!(ext.withdraw(BOB, DOT, 1_000).is_ok()),
            _ => assert!(ext.supply(ALICE, DOT, 777).is_ok()),
        }
        let pool = ext.pool(DOT).unwrap();
        assert!(pool.supply_index >= last.supply_index);
        assert!(pool.borrow_index >= last.borrow_index);
        assert!(pool.supply_index >= Rate::one());
        assert!(pool.borrow_index >= Rate::one());
        assert!(pool.last_accrued_interest_at >= last.last_accrued_interest_at);
        last = pool;
    }
    assert!(last.borrow_index > Rate::one());
    assert!(last.supply_index > Rate::one());
}

#[test]
fn a_pool_at_the_smallest_utilisation_stays_open() {
    let mut ext = Ext::build(vec![
        (DOT, ALICE, 100_000_000),
        (DOT, BOB, 1_000_000),
        (KSM, BOB, 1_000_000),
    ]);
    ext.setup_active_pool(DOT, 10_000_015);
    assert_eq!(ext.set_asset_price(DOT, KSM, rational(1, 1)), Ok(()));
    // 15 of 10_000_015 lent: one millionth
    assert!(ext.borrow(BOB, DOT, 15, KSM, 30).is_ok());
    assert_eq!(ext.pool(DOT).unwrap().utilisation_ratio().unwrap().deconstruct(), 1);
    for _ in 0..3 {
        ext.now += 1;
        assert!(ext.supply(BOB, DOT, 10).is_ok());
        ext.now += 86_400;
        assert!(ext.withdraw(BOB, DOT, 5).is_ok());
    }
    ext.now += 31_536_000;
    assert!(ext.repay(BOB, DOT, 1, KSM).is_ok());
    assert!(ext.borrow(BOB, DOT, 1, KSM, 2).is_ok());
    assert!(ext.repay(BOB, DOT, 1_000, KSM).is_ok());
    assert_eq!(ext.lending.borrow_of(BOB, DOT, KSM), None);
    assert!(ext.pool(DOT).unwrap().borrow_index > Rate::one());
}

#[test]
fn a_fully_lent_pool_lets_its_borrowers_repay() {
    let mut ext = Ext::build(vec![
        (DOT, ALICE, 1_000_000),
        (DOT, BOB, 1_000_000),
        (KSM, BOB, 1_000_000),
    ]);
    ext.setup_active_pool(DOT, 1000);
    assert_eq!(ext.set_asset_price(DOT, KSM, rational(1, 1)), Ok(()));
    assert!(ext.borrow(BOB, DOT, 1000, KSM, 2000).is_ok());
    let pool = ext.pool(DOT).unwrap();
    assert_eq!((pool.reserve_balance, pool.borrowed_balance), (0, 1000));
    assert_eq!(pool.utilisation_ratio(), Ok(lending::Ratio::one()));
    ext.now += 31_536_000;
    // a year at 15%, compounded
    let calls = ext.repay(BOB, DOT, 5000, KSM).unwrap();
    match calls[0] {
        TokenCall::Transfer { amount, .. } => assert_eq!(amount, 1161),
        _ => panic!("the first call is the payment"),
    }
    assert_eq!(ext.pool(DOT).unwrap().reserve_balance, 1161);
    assert_eq!(ext.lending.borrow_of(BOB, DOT, KSM), None);
}

#[test]
fn a_loan_too_large_to_repay_is_refused() {
    let unit = 1_000_000_000_000_000_000u128;
    let mut ext = Ext::build(vec![
        (DOT, ALICE, 1_000 * unit),
        (DOT, BOB, 1_000 * unit),
        (KSM, BOB, 2_000 * unit),
    ]);
    ext.setup_active_pool(DOT, 1_000 * unit);
    assert_eq!(ext.set_asset_price(DOT, KSM, rational(1, 1)), Ok(()));
    let pool = ext.pool(DOT).unwrap();
    // 400 * 10^18 against 800 * 10^18: neither balance can be read on the
    // scale of rates
    assert_eq!(ext.borrow(BOB, DOT, 400 * unit, KSM, 800 * unit), Err(Error::OverflowError));
    assert_eq!(ext.pool(DOT), Some(pool));
    assert_eq!(ext.lending.borrow_of(BOB, DOT, KSM), None);
    // the largest collateral that can
    let most = u128::MAX / unit;
    assert_eq!(ext.borrow(BOB, DOT, 10, KSM, most + 1), Err(Error::OverflowError));
    assert!(ext.borrow(BOB, DOT, 100 * unit, KSM, most).is_ok());
    // a further loan may not take the record over the limit
    assert_eq!(ext.borrow(BOB, DOT, 1, KSM, 2), Err(Error::OverflowError));
    // what was lent can be repaid, in part and in full
    assert!(ext.repay(BOB, DOT, 1, KSM).is_ok());
    assert!(ext.repay(BOB, DOT, 100 * unit, KSM).is_ok());
    assert_eq!(ext.lending.borrow_of(BOB, DOT, KSM), None);
}

#[test]
fn release_collateral_amount_is_the_paid_fraction() {
    assert_eq!(Pallet::get_release_collateral_amount(rational(2, 5), 1000), Ok(400));
    assert_eq!(Pallet::get_release_collateral_amount(rational(1, 3), 1000), Ok(333));
    assert_eq!(Pallet::get_release_collateral_amount(Rate::one(), 1000), Ok(1000));
    assert_eq!(Pallet::get_release_collateral_amount(Rate::one(), u128::MAX), Err(Error::OverflowError));
}

#[test]
fn seconds_of_a_clock_in_milliseconds() {
    assert_eq!(Pallet::now_in_seconds(0), 0);
    assert_eq!(Pallet::now_in_seconds(999), 0);
    assert_eq!(Pallet::now_in_seconds(6_000), 6);
    assert_eq!(Pallet::now_in_seconds(u64::MAX), u64::MAX / 1000);
}

#[test]
fn the_custody_account_is_the_one_given() {
    let ext = Ext::build(vec![]);
    assert_eq!(ext.lending.account_id(), CUSTODY);
    assert_eq!(ext.lending.pool_count(), 0);
    assert_eq!(ext.lending.loan_count(), 0);
    let _ = ADMIN;
    let _ = USDT;
}

#[test]
fn operations_keep_the_indexes_at_least_one_and_the_loans_repayable() {
    let unit = 1_000_000_000_000_000_000u128;
    let mut ext = Ext::build(vec![
        (DOT, ALICE, 10_000_000),
        (DOT, BOB, 10_000_000),
        (KSM, BOB, 10_000_000),
    ]);
    ext.setup_active_pool(DOT, 1_000_000);
    assert_eq!(ext.set_asset_price(DOT, KSM, rational(1, 1)), Ok(()));
    for round in 0..12u64 {
        ext.now += 1_000_000;
        match round % 4 {
            0 => assert!(ext.borrow(BOB, DOT, 20_000, KSM, 50_000).is_ok()),
            1 => assert!(ext.repay(BOB, DOT, 7_000, KSM).is_ok()),
            2 => assert!(ext.supply(BOB, DOT, 3_000).is_ok()),
            _ => assert!(ext.withdraw(BOB, DOT, 1_000).is_ok()),
        }
        for i in 0..ext.lending.pool_count() {
            let pool = ext.lending.pool_at(i).1;
            assert!(pool.borrow_index >= Rate::one());
            assert!(pool.supply_index >= Rate::one());
        }
        for i in 0..ext.lending.loan_count() {
            let loan = ext.lending.loan_at(i).1;
            assert!(loan.borrowed_balance <= u128::MAX / unit);
            assert!(loan.collateral_balance <= u128::MAX / unit);
        }
    }
}
