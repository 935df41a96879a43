//! The record of one collateralised loan.

use crate::fixed::Rate;
use crate::types::{AssetId, Balance, Error};
use vstd::prelude::*;

verus! {

/// What one account owes in one asset against collateral in another.
///
/// `borrowed_balance` is scaled down by the pool's borrow index;
/// `collateral_balance` is in plain units.
#[derive(Clone, Copy, Debug, PartialEq, Eq, Structural)]
pub struct UserBorrow {
    pub borrowed_asset: AssetId,
    pub borrowed_balance: Balance,
    pub collateral_asset: AssetId,
    pub collateral_balance: Balance,
    /// The pool's borrow index when the balance was last rebased.
    pub borrow_index_at_borrow_time: Rate,
}

impl UserBorrow {
    /// The loan after a further borrow `b` on the same assets: both balances
    /// grow by those of `b`, the index snapshot stays.
    pub open spec fn increased(self, b: UserBorrow) -> UserBorrow {
        UserBorrow {
            borrowed_balance: (self.borrowed_balance + b.borrowed_balance) as u128,
            collateral_balance: (self.collateral_balance + b.collateral_balance) as u128,
            ..self
        }
    }

    /// The loan after a partial repayment that takes the two amounts off.
    pub open spec fn reduced(self, borrowed_balance: Balance, collateral_balance: Balance)
        -> UserBorrow {
        UserBorrow {
            borrowed_balance: (self.borrowed_balance - borrowed_balance) as u128,
            collateral_balance: (self.collateral_balance - collateral_balance) as u128,
            ..self
        }
    }

    /// Increases the borrowed and collateral balances upon a further borrow.
    /// Fails, and changes nothing, where a sum overflows.
    pub fn increase_borrow(&mut self, b: &UserBorrow) -> (r: Result<(), Error>)
        ensures
            old(self).borrowed_balance + b.borrowed_balance <= u128::MAX && old(self).collateral_balance + b.collateral_balance <= u128::MAX ==> r == Ok::<(), Error>(())
                && *final(self) == old(self).increased(*b),
            old(self).borrowed_balance + b.borrowed_balance > u128::MAX || old(self).collateral_balance + b.collateral_balance > u128::MAX ==> r == Err::<(), Error>(
                Error::OverflowError,
            ) && *final(self) == *old(self),
    {
        let borrowed = match self.borrowed_balance.checked_add(b.borrowed_balance) {
            Some(v) => v,
            None => {
                return Err(Error::OverflowError);
            },
        };
        let collateral = match self.collateral_balance.checked_add(b.collateral_balance) {
            Some(v) => v,
            None => {
                return Err(Error::OverflowError);
            },
        };
        self.borrowed_balance = borrowed;
        self.collateral_balance = collateral;
        Ok(())
    }

    /// Decreases the borrowed and collateral balances upon a partial
    /// repayment. Fails, and changes nothing, where an amount exceeds its
    /// balance.
    pub fn repay_partial(&mut self, borrowed_balance: Balance, collateral_balance: Balance) -> (r:
        Result<(), Error>)
        ensures
            borrowed_balance <= old(self).borrowed_balance && collateral_balance <= old(self).collateral_balance ==> r == Ok::<(), Error>(()) && *final(self) == old(self).reduced(
                borrowed_balance,
                collateral_balance,
            ),
            borrowed_balance > old(self).borrowed_balance || collateral_balance > old(self).collateral_balance ==> r == Err::<(), Error>(Error::OverflowError) && *final(self)
                == *old(self),
    {
        let borrowed = match self.borrowed_balance.checked_sub(borrowed_balance) {
            Some(v) => v,
            None => {
                return Err(Error::OverflowError);
            },
        };
        let collateral = match self.collateral_balance.checked_sub(collateral_balance) {
            Some(v) => v,
            None => {
                return Err(Error::OverflowError);
            },
        };
        self.borrowed_balance = borrowed;
        self.collateral_balance = collateral;
        Ok(())
    }
}

} // verus!
