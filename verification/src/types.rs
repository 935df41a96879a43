//! Identifiers, amounts and the errors of the ledger.

use vstd::prelude::*;

verus! {

/// An account of the token ledger.
pub type AccountId = u64;

/// A fungible asset.
pub type AssetId = u32;

/// An amount of an asset, in its smallest unit.
pub type Balance = u128;

/// Seconds since the epoch.
pub type Timestamp = u64;

/// The identifier of a pool, which is also that of its share token.
pub type LendingPoolId = u32;

/// Total value of all deposits of an account, in the anchor asset.
pub type TotalDeposit = u128;

/// Total value of all borrowed assets of an account, in the anchor asset.
pub type TotalBorrow = u128;

/// Total value of all collateral of an account, in the anchor asset.
pub type TotalCollateral = u128;

pub const SECONDS_PER_YEAR: u64 = 31_536_000;

/// The asset through which prices are derived where no direct quote exists.
pub const ANCHOR_ASSET: AssetId = 1;

/// Why an operation of the ledger was refused.
#[derive(Clone, Copy, Debug, PartialEq, Eq, Structural)]
pub enum Error {
    /// Lending Pool does not exist
    LendingPoolDoesNotExist,
    /// Lending Pool already exists
    LendingPoolAlreadyExists,
    /// Lending Pool already activated
    LendingPoolAlreadyActivated,
    /// Lending Pool already deactivated
    LendingPoolAlreadyDeactivated,
    /// Lending Pool is not active or has been deprecated
    LendingPoolNotActive,
    /// The balance amount to supply is not valid
    InvalidLiquiditySupply,
    /// The balance amount to withdraw is not valid
    InvalidLiquidityWithdrawal,
    /// The user has not enough liquidity
    NotEnoughLiquiditySupply,
    /// The user wants to withdraw more than allowed
    NotEnoughEligibleLiquidityToWithdraw,
    /// Lending Pool is empty
    LendingPoolIsEmpty,
    /// An arithmetic operation overflowed or left its domain
    OverflowError,
    /// The ID already exists
    IdAlreadyExists,
    /// The user has not enough collateral assets
    NotEnoughCollateral,
    /// The loan being repaid does not exist
    LoanDoesNotExists,
    /// Price of the asset can not be zero
    InvalidAssetPrice,
    /// The price of the asset is not available
    AssetPriceNotSet,
    /// Division by zero
    DivisionByZero,
}

} // verus!
