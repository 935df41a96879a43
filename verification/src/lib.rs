//! Pool-based lending ledger: interest accrual, scaled-balance bookkeeping,
//! collateralised borrowing and cross-asset valuation.

pub mod borrow_repay;
pub mod fixed;
pub mod interest_rate;
pub mod laws;
pub mod pallet;
pub mod pool;
pub mod reports;
pub mod rpc;
pub mod state;
pub mod storage;
pub mod tokens;
pub mod transcendental;
pub mod types;

pub use borrow_repay::UserBorrow;
pub use fixed::{Rate, Ratio, SignedRate};
pub use interest_rate::InterestRateModel;
pub use pallet::{AssetPool, Pallet, SupplyIndex};
pub use pool::LendingPool;
pub use reports::{
    AggregatedTotals, AssetInfo, BorrowedAsset, CollateralAsset, LendingPoolInfo, SuppliedAsset,
    UserLTVInfo,
};
pub use rpc::LendingPoolApiImpl;
pub use tokens::{Preservation, TokenCall, TokenView};
pub use types::{
    AccountId, AssetId, Balance, Error, LendingPoolId, Timestamp, TotalBorrow, TotalCollateral,
    TotalDeposit, ANCHOR_ASSET, SECONDS_PER_YEAR,
};
