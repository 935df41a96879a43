//! What the ledger reads from the token ledger, and what it asks of it.
//!
//! The ledger moves no token itself. It reads balances and metadata from a
//! [`TokenView`], a snapshot taken before an operation, and answers with the
//! [`TokenCall`]s that carry the operation out.

use crate::storage::{has_key, lookup, Table};
use crate::types::{AccountId, AssetId, Balance};
use vstd::prelude::*;

verus! {

/// Whether a transfer may empty the account it takes from.
#[derive(Clone, Copy, Debug, PartialEq, Eq, Structural)]
pub enum Preservation {
    /// The account may be emptied and closed.
    Expendable,
    /// The account must stay open.
    Preserve,
}

/// A call on the token ledger, to be made after the operation that asked for
/// it.
#[derive(Clone, Copy, Debug, PartialEq, Eq, Structural)]
pub enum TokenCall {
    /// Move `amount` of `asset` from `source` to `dest`.
    Transfer {
        asset: AssetId,
        source: AccountId,
        dest: AccountId,
        amount: Balance,
        preservation: Preservation,
    },
    /// Create the asset `id`, owned by `admin`, with a minimum balance of one.
    Create { id: AssetId, admin: AccountId },
    /// Mint `amount` of `asset` into the account `who`.
    MintInto { asset: AssetId, who: AccountId, amount: Balance },
    /// Burn exactly `amount` of `asset` from the account `who`.
    BurnFrom { asset: AssetId, who: AccountId, amount: Balance },
}

/// What an account holds of one asset.
#[derive(Clone, Copy, Debug, PartialEq, Eq, Structural)]
pub struct Holding {
    /// The whole balance.
    pub total: Balance,
    /// The part of it that can leave while the account stays open.
    pub reducible: Balance,
}

/// Name, decimals and symbol of an asset.
#[derive(Debug, PartialEq, Eq)]
pub struct AssetMetadata {
    pub name: Vec<u8>,
    pub decimals: u8,
    pub symbol: Vec<u8>,
}

/// A copy of `bytes`.
pub fn copy_bytes(bytes: &Vec<u8>) -> (r: Vec<u8>)
    ensures
        r@ == bytes@,
{
    let mut out: Vec<u8> = Vec::new();
    let mut i: usize = 0;
    while i < bytes.len()
        invariant
            i <= bytes.len(),
            out@ == bytes@.subrange(0, i as int),
        decreases bytes.len() - i,
    {
        out.push(bytes[i]);
        proof {
            assert(out@ =~= bytes@.subrange(0, i + 1));
        }
        i += 1;
    }
    proof {
        assert(bytes@.subrange(0, i as int) =~= bytes@);
    }
    out
}

/// A snapshot of the token ledger: the assets that exist, with their
/// metadata, and the holdings of accounts.
pub struct TokenView {
    holdings: Table<(AccountId, AssetId), Holding>,
    assets: Table<AssetId, AssetMetadata>,
}

impl TokenView {
    /// What `who` holds of `asset`; nothing where the snapshot has no entry.
    pub closed spec fn spec_holding(&self, asset: AssetId, who: AccountId) -> Holding {
        match lookup(self.holdings@, (who, asset)) {
            Some(h) => h,
            None => Holding { total: 0, reducible: 0 },
        }
    }

    /// The balance of `who` in `asset`.
    pub open spec fn spec_balance(&self, asset: AssetId, who: AccountId) -> Balance {
        self.spec_holding(asset, who).total
    }

    /// What `who` can give of `asset` and stay open.
    pub open spec fn spec_reducible(&self, asset: AssetId, who: AccountId) -> Balance {
        self.spec_holding(asset, who).reducible
    }

    /// Whether `asset` exists.
    pub closed spec fn spec_exists(&self, asset: AssetId) -> bool {
        has_key(self.assets@, asset)
    }

    /// The name of `asset`; empty where the asset does not exist.
    pub closed spec fn spec_name(&self, asset: AssetId) -> Seq<u8> {
        match lookup(self.assets@, asset) {
            Some(m) => m.name@,
            None => Seq::empty(),
        }
    }

    /// The decimals of `asset`; zero where the asset does not exist.
    pub closed spec fn spec_decimals(&self, asset: AssetId) -> u8 {
        match lookup(self.assets@, asset) {
            Some(m) => m.decimals,
            None => 0,
        }
    }

    /// The symbol of `asset`; empty where the asset does not exist.
    pub closed spec fn spec_symbol(&self, asset: AssetId) -> Seq<u8> {
        match lookup(self.assets@, asset) {
            Some(m) => m.symbol@,
            None => Seq::empty(),
        }
    }

    /// A snapshot without assets and without holdings: no asset exists, so
    /// none has a name, decimals or a symbol, and no account holds anything.
    pub fn new() -> (r: TokenView)
        ensures
            forall|asset: AssetId| !r.spec_exists(asset),
            forall|asset: AssetId| r.spec_name(asset) == Seq::<u8>::empty(),
            forall|asset: AssetId| r.spec_decimals(asset) == 0,
            forall|asset: AssetId| r.spec_symbol(asset) == Seq::<u8>::empty(),
            forall|asset: AssetId, who: AccountId|
                r.spec_holding(asset, who) == (Holding { total: 0, reducible: 0 }),
    {
        let r = TokenView { holdings: Table::new(), assets: Table::new() };
        assert forall|asset: AssetId| !r.spec_exists(asset) by {
            assert(!has_key(r.assets@, asset));
        }
        assert forall|asset: AssetId|
            r.spec_name(asset) == Seq::<u8>::empty() && r.spec_decimals(asset) == 0
                && r.spec_symbol(asset) == Seq::<u8>::empty() by {
            assert(!has_key(r.assets@, asset));
        }
        assert forall|asset: AssetId, who: AccountId|
            r.spec_holding(asset, who) == (Holding { total: 0, reducible: 0 }) by {
            assert(!has_key(r.holdings@, (who, asset)));
        }
        r
    }

    /// Records that `asset` exists, with this metadata.
    pub fn set_metadata(&mut self, asset: AssetId, name: Vec<u8>, decimals: u8, symbol: Vec<u8>)
        ensures
            final(self).spec_exists(asset),
            final(self).spec_name(asset) == name@,
            final(self).spec_decimals(asset) == decimals,
            final(self).spec_symbol(asset) == symbol@,
            forall|other: AssetId|
                other != asset ==> final(self).spec_exists(other) == old(self).spec_exists(other)
                    && final(self).spec_name(other) == old(self).spec_name(other) && final(self).spec_decimals(other) == old(self).spec_decimals(other) && final(self).spec_symbol(other) == old(self).spec_symbol(other),
            forall|other: AssetId, who: AccountId|
                final(self).spec_holding(other, who) == old(self).spec_holding(other, who),
    {
        let ghost before = self.assets@;
        let metadata = AssetMetadata { name, decimals, symbol };
        self.assets.insert(asset, metadata);
        proof {
            crate::storage::lemma_put(before, asset, metadata);
        }
    }

    /// Records what `who` holds of `asset`.
    pub fn set_balance(&mut self, asset: AssetId, who: AccountId, total: Balance, reducible: Balance)
        ensures
            final(self).spec_holding(asset, who) == (Holding { total, reducible }),
            forall|a: AssetId, w: AccountId|
                (a != asset || w != who) ==> final(self).spec_holding(a, w) == old(self).spec_holding(a, w),
            forall|other: AssetId|
                final(self).spec_exists(other) == old(self).spec_exists(other) && final(self).spec_name(other) == old(self).spec_name(other) && final(self).spec_decimals(
                    other,
                ) == old(self).spec_decimals(other) && final(self).spec_symbol(other) == old(self).spec_symbol(other),
    {
        let ghost before = self.holdings@;
        self.holdings.insert((who, asset), Holding { total, reducible });
        proof {
            crate::storage::lemma_put(before, (who, asset), Holding { total, reducible });
            assert forall|a: AssetId, w: AccountId| (a != asset || w != who) implies final(self).spec_holding(a, w) == old(self).spec_holding(a, w) by {
                assert((w, a) != (who, asset));
            }
        }
    }

    /// The balance of `who` in `asset`.
    pub fn balance(&self, asset: AssetId, who: AccountId) -> (r: Balance)
        ensures
            r == self.spec_balance(asset, who),
    {
        match self.holdings.get(&(who, asset)) {
            Some(h) => h.total,
            None => 0,
        }
    }

    /// What `who` can give of `asset` while the account stays open.
    pub fn reducible_balance(&self, asset: AssetId, who: AccountId) -> (r: Balance)
        ensures
            r == self.spec_reducible(asset, who),
    {
        match self.holdings.get(&(who, asset)) {
            Some(h) => h.reducible,
            None => 0,
        }
    }

    /// Whether `asset` exists.
    pub fn asset_exists(&self, asset: AssetId) -> (r: bool)
        ensures
            r == self.spec_exists(asset),
    {
        self.assets.contains_key(&asset)
    }

    /// The name of `asset`.
    pub fn name(&self, asset: AssetId) -> (r: Vec<u8>)
        ensures
            r@ == self.spec_name(asset),
    {
        match self.assets.get(&asset) {
            Some(m) => copy_bytes(&m.name),
            None => Vec::new(),
        }
    }

    /// The decimals of `asset`.
    pub fn decimals(&self, asset: AssetId) -> (r: u8)
        ensures
            r == self.spec_decimals(asset),
    {
        match self.assets.get(&asset) {
            Some(m) => m.decimals,
            None => 0,
        }
    }

    /// The symbol of `asset`.
    pub fn symbol(&self, asset: AssetId) -> (r: Vec<u8>)
        ensures
            r@ == self.spec_symbol(asset),
    {
        match self.assets.get(&asset) {
            Some(m) => copy_bytes(&m.symbol),
            None => Vec::new(),
        }
    }
}

} // verus!
