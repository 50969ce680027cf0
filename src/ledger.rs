//! An in-memory fungible-asset ledger: per-asset minimum balances, balances per account,
//! and transfers that sweep a sub-minimum remainder along instead of burning it.
use vstd::prelude::*;
use crate::pair::{AccountId, AssetId};
use crate::table::{Table, TableKey};

verus! {

/// Why the ledger refused an operation.
#[derive(Clone, Copy, Debug, PartialEq, Eq, Structural)]
pub enum TokenError {
    /// The asset has not been created.
    UnknownAsset,
    /// The asset already exists.
    AlreadyExists,
    /// An asset's minimum balance must be positive.
    MinBalanceZero,
    /// The source account holds less than the amount.
    BalanceLow,
    /// The transfer would leave the source below the minimum while it must stay alive.
    WouldDie,
    /// The destination would hold a positive amount below the minimum.
    BelowMinimum,
    /// The destination balance would not fit.
    Overflow,
}

#[derive(Clone, Copy, Debug)]
pub struct AssetInfo {
    pub id: AssetId,
    pub min_balance: u64,
}

/// The holding of one account in one asset.
#[derive(Clone, Copy, Debug, PartialEq, Eq, Structural)]
pub struct HoldingKey {
    pub asset: AssetId,
    pub who: AccountId,
}

impl TableKey for HoldingKey {
    fn same(&self, other: &Self) -> (r: bool) {
        self.asset == other.asset && self.who == other.who
    }
}

/// The minimum balance of the first entry for `id`, if any.
pub open spec fn min_balance_in(s: Seq<AssetInfo>, id: AssetId) -> Option<u64>
    decreases s.len(),
{
    if s.len() == 0 {
        None
    } else if s[0].id == id {
        Some(s[0].min_balance)
    } else {
        min_balance_in(s.drop_first(), id)
    }
}

#[derive(Debug)]
pub struct Ledger {
    pub assets: Vec<AssetInfo>,
    pub holdings: Table<HoldingKey>,
}

impl Ledger {
    pub open spec fn wf(&self) -> bool {
        self.holdings.wf()
    }

    /// The minimum balance of `asset`, or `None` when it does not exist.
    pub open spec fn min_of(&self, asset: AssetId) -> Option<u64> {
        min_balance_in(self.assets@, asset)
    }

    pub open spec fn balance(&self, asset: AssetId, who: AccountId) -> nat {
        self.holdings.value(HoldingKey { asset, who })
    }

    /// What a balance may drop by: all of it, or what lies above the minimum when the
    /// account must stay alive.
    pub open spec fn reducible(&self, asset: AssetId, who: AccountId, keep_alive: bool) -> nat {
        let min = match self.min_of(asset) {
            Some(m) => m as int,
            None => 0,
        };
        if keep_alive {
            if self.balance(asset, who) >= min {
                (self.balance(asset, who) - min) as nat
            } else {
                0
            }
        } else {
            self.balance(asset, who)
        }
    }

    /// The amount that a transfer moves, or why it is refused.
    pub open spec fn transfer_outcome(
        &self,
        asset: AssetId,
        from: AccountId,
        to: AccountId,
        amount: u64,
        keep_alive: bool,
    ) -> Result<u64, TokenError> {
        match self.min_of(asset) {
            None => Err(TokenError::UnknownAsset),
            Some(min) => {
                let bal = self.balance(asset, from);
                if amount == 0 || from == to {
                    Ok(amount)
                } else if bal < amount {
                    Err(TokenError::BalanceLow)
                } else if bal - amount < min && keep_alive {
                    Err(TokenError::WouldDie)
                } else {
                    let moved: int = if bal - amount < min {
                        bal as int
                    } else {
                        amount as int
                    };
                    let dest = self.balance(asset, to) + moved;
                    if dest > u64::MAX {
                        Err(TokenError::Overflow)
                    } else if dest < min {
                        Err(TokenError::BelowMinimum)
                    } else {
                        Ok(moved as u64)
                    }
                }
            },
        }
    }

    /// Balances of `asset` are those of `old` with `amount` moved from `from` to `to`.
    pub open spec fn asset_moved(
        &self,
        old: &Self,
        asset: AssetId,
        from: AccountId,
        to: AccountId,
        amount: nat,
    ) -> bool {
        forall|w: AccountId| #[trigger]
            self.balance(asset, w) == old.balance(asset, w) - (if w == from && from != to {
                amount as int
            } else {
                0
            }) + (if w == to && from != to {
                amount as int
            } else {
                0
            })
    }

    /// No balance of `asset` differs from `old`.
    pub open spec fn asset_untouched(&self, old: &Self, asset: AssetId) -> bool {
        forall|w: AccountId| #[trigger] self.balance(asset, w) == old.balance(asset, w)
    }

    pub fn new() -> (r: Self)
        ensures
            r.wf(),
            r.assets@.len() == 0,
            forall|x: AssetId, w: AccountId| #[trigger] r.balance(x, w) == 0,
    {
        Ledger { assets: Vec::new(), holdings: Table::new() }
    }

    /// The minimum balance of `asset`, `None` when it does not exist.
    pub fn find_asset(&self, asset: AssetId) -> (r: Option<u64>)
        ensures
            r == self.min_of(asset),
    {
        let mut i: usize = 0;
        assert(self.assets@.subrange(0, self.assets@.len() as int) =~= self.assets@);
        while i < self.assets.len()
            invariant
                i <= self.assets@.len(),
                min_balance_in(self.assets@, asset) == min_balance_in(
                    self.assets@.subrange(i as int, self.assets@.len() as int),
                    asset,
                ),
            decreases self.assets@.len() - i,
        {
            let ghost rest = self.assets@.subrange(i as int, self.assets@.len() as int);
            assert(rest[0] == self.assets@[i as int]);
            if self.assets[i].id == asset {
                return Some(self.assets[i].min_balance);
            }
            assert(rest.drop_first() =~= self.assets@.subrange(i + 1, self.assets@.len() as int));
            i = i + 1;
        }
        None
    }

    /// Creates `asset` with a positive minimum balance.
    pub fn create_asset(&mut self, asset: AssetId, min_balance: u64) -> (r: Result<(), TokenError>)
        requires
            old(self).wf(),
        ensures
            final(self).wf(),
            old(self).min_of(asset) is Some ==> r == Err::<(), TokenError>(TokenError::AlreadyExists),
            old(self).min_of(asset) is None && min_balance == 0 ==> r == Err::<(), TokenError>(
                TokenError::MinBalanceZero,
            ),
            old(self).min_of(asset) is None && min_balance > 0 ==> r is Ok && final(self).min_of(
                asset,
            ) == Some(min_balance),
            forall|x: AssetId| x != asset ==> #[trigger] final(self).min_of(x) == old(self).min_of(x),
            final(self).holdings == old(self).holdings,
    {
        if self.find_asset(asset).is_some() {
            return Err(TokenError::AlreadyExists);
        }
        if min_balance == 0 {
            return Err(TokenError::MinBalanceZero);
        }
        let ghost before = self.assets@;
        self.assets.insert(0, AssetInfo { id: asset, min_balance });
        assert(self.assets@.drop_first() =~= before);
        Ok(())
    }

    /// The balance of `who` in `asset`.
    pub fn balance_of(&self, asset: AssetId, who: AccountId) -> (r: u64)
        requires
            self.wf(),
        ensures
            r == self.balance(asset, who),
    {
        self.holdings.get(HoldingKey { asset, who })
    }

    /// The minimum balance of `asset`, zero when it does not exist.
    pub fn minimum_balance(&self, asset: AssetId) -> (r: u64)
        ensures
            r == match self.min_of(asset) {
                Some(m) => m,
                None => 0,
            },
    {
        match self.find_asset(asset) {
            Some(m) => m,
            None => 0,
        }
    }

    /// How much the balance of `who` in `asset` may drop.
    pub fn reducible_balance(&self, asset: AssetId, who: AccountId, keep_alive: bool) -> (r: u64)
        requires
            self.wf(),
        ensures
            r == self.reducible(asset, who, keep_alive),
    {
        let bal = self.balance_of(asset, who);
        if keep_alive {
            bal.saturating_sub(self.minimum_balance(asset))
        } else {
            bal
        }
    }

    /// Credits `amount` of `asset` to `who`; the result must reach the minimum balance.
    pub fn mint(&mut self, asset: AssetId, who: AccountId, amount: u64) -> (r: Result<(), TokenError>)
        requires
            old(self).wf(),
        ensures
            final(self).wf(),
            final(self).assets@ == old(self).assets@,
            r is Ok <==> (old(self).min_of(asset) is Some && old(self).balance(asset, who) + amount
                <= u64::MAX && old(self).balance(asset, who) + amount >= old(self).min_of(
                asset,
            )->Some_0),
            r is Ok ==> final(self).balance(asset, who) == old(self).balance(asset, who) + amount,
            r is Err ==> final(self).holdings == old(self).holdings,
            forall|x: AssetId, w: AccountId|
                (x != asset || w != who) ==> #[trigger] final(self).balance(x, w) == old(self).balance(
                    x,
                    w,
                ),
    {
        let min = match self.find_asset(asset) {
            Some(m) => m,
            None => return Err(TokenError::UnknownAsset),
        };
        let bal = self.balance_of(asset, who);
        let total = match bal.checked_add(amount) {
            Some(t) => t,
            None => return Err(TokenError::Overflow),
        };
        if total < min {
            return Err(TokenError::BelowMinimum);
        }
        self.holdings.set(HoldingKey { asset, who }, total);
        proof {
            assert forall|x: AssetId, w: AccountId|
                (x != asset || w != who) implies #[trigger] self.balance(x, w) == old(self).balance(
                    x,
                    w,
                ) by {
                assert(HoldingKey { asset: x, who: w } != HoldingKey { asset, who });
            }
        }
        Ok(())
    }

    /// Checks a transfer without performing it: the amount it would move, or why it fails.
    pub fn check_transfer(
        &self,
        asset: AssetId,
        from: AccountId,
        to: AccountId,
        amount: u64,
        keep_alive: bool,
    ) -> (r: Result<u64, TokenError>)
        requires
            self.wf(),
        ensures
            r == self.transfer_outcome(asset, from, to, amount, keep_alive),
    {
        let min = match self.find_asset(asset) {
            Some(m) => m,
            None => return Err(TokenError::UnknownAsset),
        };
        if amount == 0 || from == to {
            return Ok(amount);
        }
        let bal = self.balance_of(asset, from);
        if bal < amount {
            return Err(TokenError::BalanceLow);
        }
        let dust = bal - amount < min;
        if dust && keep_alive {
            return Err(TokenError::WouldDie);
        }
        let moved = if dust {
            bal
        } else {
            amount
        };
        let dest = match self.balance_of(asset, to).checked_add(moved) {
            Some(d) => d,
            None => return Err(TokenError::Overflow),
        };
        if dest < min {
            return Err(TokenError::BelowMinimum);
        }
        Ok(moved)
    }

    /// Moves `amount` of `asset` from `from` to `to`, or more when the source would otherwise
    /// keep a positive remainder below the minimum; returns the amount moved.
    pub fn transfer(
        &mut self,
        asset: AssetId,
        from: AccountId,
        to: AccountId,
        amount: u64,
        keep_alive: bool,
    ) -> (r: Result<u64, TokenError>)
        requires
            old(self).wf(),
        ensures
            final(self).wf(),
            r == old(self).transfer_outcome(asset, from, to, amount, keep_alive),
            final(self).assets@ == old(self).assets@,
            r is Err ==> final(self).holdings == old(self).holdings,
            r is Ok ==> final(self).asset_moved(old(self), asset, from, to, r->Ok_0 as nat),
            forall|x: AssetId| x != asset ==> #[trigger] final(self).asset_untouched(old(self), x),
    {
        let moved = match self.check_transfer(asset, from, to, amount, keep_alive) {
            Ok(m) => m,
            Err(e) => return Err(e),
        };
        if moved == 0 || from == to {
            return Ok(moved);
        }
        let src = self.balance_of(asset, from);
        let dst = self.balance_of(asset, to);
        let kf = HoldingKey { asset, who: from };
        let kt = HoldingKey { asset, who: to };
        self.holdings.set(kf, src - moved);
        let ghost mid = self.holdings;
        self.holdings.set(kt, dst + moved);
        proof {
            assert forall|w: AccountId| #[trigger]
                self.balance(asset, w) == old(self).balance(asset, w) - (if w == from && from != to {
                    moved as int
                } else {
                    0
                }) + (if w == to && from != to {
                    moved as int
                } else {
                    0
                }) by {
                let k = HoldingKey { asset, who: w };
                if w != from {
                    assert(k != kf);
                    assert(mid.value(k) == old(self).holdings.value(k));
                }
                if w != to {
                    assert(k != kt);
                }
            }
            assert forall|x: AssetId| x != asset implies #[trigger] self.asset_untouched(old(self), x) by {
                assert forall|w: AccountId| #[trigger] self.balance(x, w) == old(self).balance(x, w) by {
                    let k = HoldingKey { asset: x, who: w };
                    assert(k != kf && k != kt);
                    assert(mid.value(k) == old(self).holdings.value(k));
                }
            }
        }
        Ok(moved)
    }
}

} // verus!
