//! The market maker: configuration, the claim registry and the asset ledger, and the
//! three atomic operations on them.
use vstd::prelude::*;
use crate::arith::{self, ArithmeticError, Balance, PARTS_PER_MILLION};
use crate::ledger::{Ledger, TokenError};
use crate::pair::{
    AccountId, AssetId, AssetPair, canonical_pair, get_pool_account, make_asset_pair,
    pool_account_of,
};
use crate::pool::{
    Error, add_plan, check_pool_share, exchange_plan, min_pool_of, plan_add_liquidity,
    plan_exchange, plan_remove_liquidity, remove_plan, share_check,
};
use crate::registry::LiquidityRegistry;

verus! {

/// The parameters of a market maker.
#[derive(Clone, Copy, Debug, PartialEq, Eq, Structural)]
pub struct Config {
    /// Selects the family of accounts that hold the pools' reserves.
    pub pallet_id: u64,
    /// A provider must keep at least this multiple of each asset's minimum balance.
    pub pool_min_amount_multiple: Balance,
    /// Claims given to the first provider of a pair per unit of the larger amount.
    pub initial_liquidity_per_asset_unit: Balance,
    /// Fee taken from an exchange's source amount, in parts per million (below one whole).
    pub exchange_fee: u32,
}

/// What a successful operation did.
#[derive(Clone, Copy, Debug, PartialEq, Eq, Structural)]
pub enum Event {
    LiquidityAdded {
        who: AccountId,
        asset_a: AssetId,
        amount_a: Balance,
        asset_b: AssetId,
        amount_b: Balance,
        liquidity: Balance,
    },
    LiquidityRemoved {
        who: AccountId,
        asset_a: AssetId,
        amount_a: Balance,
        asset_b: AssetId,
        amount_b: Balance,
        liquidity: Balance,
    },
    Exchanged {
        who: AccountId,
        source_asset: AssetId,
        source_amount: Balance,
        dest_asset: AssetId,
        dest_amount: Balance,
    },
}

pub open spec fn min_nat(a: nat, b: nat) -> nat {
    if a <= b {
        a
    } else {
        b
    }
}

/// A market maker: its parameters, its claim registry and the ledger that holds the assets.
#[derive(Debug)]
pub struct Pallet {
    pub config: Config,
    pub registry: LiquidityRegistry,
    pub ledger: Ledger,
}

impl Pallet {
    pub open spec fn wf(&self) -> bool {
        &&& self.registry.wf()
        &&& self.ledger.wf()
        &&& self.config.exchange_fee < PARTS_PER_MILLION
    }

    pub open spec fn pool_of(&self, pair: AssetPair) -> AccountId {
        pool_account_of(self.config.pallet_id, pair)
    }

    /// The anti-griefing floor of `asset`.
    pub open spec fn min_pool(&self, asset: AssetId) -> Result<Balance, ArithmeticError> {
        let m = match self.ledger.min_of(asset) {
            Some(m) => m,
            None => 0,
        };
        min_pool_of(m, self.config.pool_min_amount_multiple)
    }

    /// The reserves of `a` and `b` in their pool, or `(0, 0)` when they are the same asset.
    pub open spec fn rate(&self, a: AssetId, b: AssetId) -> (Balance, Balance) {
        match canonical_pair(a, b) {
            Ok(pair) => (
                self.ledger.balance(a, self.pool_of(pair)) as Balance,
                self.ledger.balance(b, self.pool_of(pair)) as Balance,
            ),
            Err(_) => (0, 0),
        }
    }

    /// The result of adding liquidity, step by step: plan, the two transfers into the pool,
    /// the new totals, and the floor on the provider's new share.
    pub open spec fn add_outcome(
        &self,
        sender: AccountId,
        asset_a: AssetId,
        min_a: Balance,
        max_a: Balance,
        asset_b: AssetId,
        min_b: Balance,
        max_b: Balance,
    ) -> Result<Event, Error> {
        match canonical_pair(asset_a, asset_b) {
            Err(_) => Err(Error::AssetsIdentical),
            Ok(pair) => {
                let pool = self.pool_of(pair);
                let total = self.registry.total(pair) as u64;
                let ra = self.ledger.balance(asset_a, pool) as u64;
                let rb = self.ledger.balance(asset_b, pool) as u64;
                match add_plan(total, ra, rb, min_a, max_a, min_b, max_b, self.config.initial_liquidity_per_asset_unit) {
                    Err(e) => Err(e),
                    Ok((claims, amt_a, amt_b)) => match self.ledger.transfer_outcome(asset_a, sender, pool, amt_a, false) {
                        Err(e) => Err(Error::Token(e)),
                        Ok(xa) => if ra + xa > u64::MAX {
                            Err(Error::Arithmetic(ArithmeticError::Overflow))
                        } else {
                            match self.ledger.transfer_outcome(asset_b, sender, pool, amt_b, false) {
                                Err(e) => Err(Error::Token(e)),
                                Ok(xb) => if rb + xb > u64::MAX || total + claims > u64::MAX {
                                    Err(Error::Arithmetic(ArithmeticError::Overflow))
                                } else {
                                    let share = self.registry.share(sender, pair) + claims;
                                    let new_total = total + claims;
                                    match share_check(ra + xa, share, new_total, self.min_pool(asset_a)) {
                                        Err(e) => Err(e),
                                        Ok(_) => match share_check(rb + xb, share, new_total, self.min_pool(asset_b)) {
                                            Err(e) => Err(e),
                                            Ok(_) => Ok(
                                                Event::LiquidityAdded {
                                                    who: sender,
                                                    asset_a,
                                                    amount_a: xa,
                                                    asset_b,
                                                    amount_b: xb,
                                                    liquidity: claims,
                                                },
                                            ),
                                        },
                                    }
                                },
                            }
                        },
                    },
                }
            },
        }
    }

    /// The result of removing liquidity, step by step: plan, the caps that keep the pool
    /// alive while claims remain, the two transfers out, and the floor on what the account
    /// keeps.
    pub open spec fn remove_outcome(
        &self,
        sender: AccountId,
        asset_a: AssetId,
        asset_b: AssetId,
        liquidity: Balance,
    ) -> Result<Event, Error> {
        match canonical_pair(asset_a, asset_b) {
            Err(_) => Err(Error::AssetsIdentical),
            Ok(pair) => {
                let pool = self.pool_of(pair);
                let total = self.registry.total(pair) as u64;
                let share = self.registry.share(sender, pair) as u64;
                let ra = self.ledger.balance(asset_a, pool) as u64;
                let rb = self.ledger.balance(asset_b, pool) as u64;
                match remove_plan(total, share, ra, rb, liquidity) {
                    Err(e) => Err(e),
                    Ok((a, b)) => {
                        let new_total = total - liquidity;
                        let new_share = share - liquidity;
                        let keep = new_total != 0;
                        let ca = min_nat(a as nat, self.ledger.reducible(asset_a, pool, keep)) as u64;
                        let cb = min_nat(b as nat, self.ledger.reducible(asset_b, pool, keep)) as u64;
                        match self.ledger.transfer_outcome(asset_a, pool, sender, ca, keep) {
                            Err(e) => Err(Error::Token(e)),
                            Ok(xa) => if xa > ra {
                                Err(Error::Arithmetic(ArithmeticError::Underflow))
                            } else {
                                match self.ledger.transfer_outcome(asset_b, pool, sender, cb, keep) {
                                    Err(e) => Err(Error::Token(e)),
                                    Ok(xb) => if xb > rb {
                                        Err(Error::Arithmetic(ArithmeticError::Underflow))
                                    } else {
                                        let checks = if new_share == 0 {
                                            Ok(())
                                        } else {
                                            match share_check(ra - xa, new_share as int, new_total as int, self.min_pool(asset_a)) {
                                                Err(e) => Err(e),
                                                Ok(_) => share_check(rb - xb, new_share as int, new_total as int, self.min_pool(asset_b)),
                                            }
                                        };
                                        match checks {
                                            Err(e) => Err(e),
                                            Ok(_) => Ok(
                                                Event::LiquidityRemoved {
                                                    who: sender,
                                                    asset_a,
                                                    amount_a: xa,
                                                    asset_b,
                                                    amount_b: xb,
                                                    liquidity,
                                                },
                                            ),
                                        }
                                    },
                                }
                            },
                        }
                    },
                }
            },
        }
    }

    /// The result of an exchange: plan, the cap that keeps the pool alive, the slippage
    /// bound, and the two transfers.
    pub open spec fn exchange_outcome(
        &self,
        sender: AccountId,
        source_asset: AssetId,
        source_amount: Balance,
        dest_asset: AssetId,
        min_dest_amount: Balance,
    ) -> Result<Event, Error> {
        match canonical_pair(source_asset, dest_asset) {
            Err(_) => Err(Error::AssetsIdentical),
            Ok(pair) => {
                let pool = self.pool_of(pair);
                let rs = self.ledger.balance(source_asset, pool) as u64;
                let rd = self.ledger.balance(dest_asset, pool) as u64;
                match exchange_plan(self.config.exchange_fee, rs, rd, source_amount) {
                    Err(e) => Err(e),
                    Ok(d) => {
                        let capped = min_nat(d as nat, self.ledger.reducible(dest_asset, pool, true)) as u64;
                        if capped < min_dest_amount {
                            Err(Error::UnexpectedExchangeRate)
                        } else {
                            match self.ledger.transfer_outcome(source_asset, sender, pool, source_amount, false) {
                                Err(e) => Err(Error::Token(e)),
                                Ok(xs) => match self.ledger.transfer_outcome(dest_asset, pool, sender, capped, true) {
                                    Err(e) => Err(Error::Token(e)),
                                    Ok(xd) => Ok(
                                        Event::Exchanged {
                                            who: sender,
                                            source_asset,
                                            source_amount: xs,
                                            dest_asset,
                                            dest_amount: xd,
                                        },
                                    ),
                                },
                            }
                        }
                    },
                }
            },
        }
    }

    /// The ledger after two transfers of two distinct assets, and no other change.
    pub open spec fn two_moves(
        new: &Ledger,
        old: &Ledger,
        x: AssetId,
        x_from: AccountId,
        x_to: AccountId,
        x_amount: nat,
        y: AssetId,
        y_from: AccountId,
        y_to: AccountId,
        y_amount: nat,
    ) -> bool {
        &&& new.assets@ == old.assets@
        &&& new.asset_moved(old, x, x_from, x_to, x_amount)
        &&& new.asset_moved(old, y, y_from, y_to, y_amount)
        &&& forall|z: AssetId| z != x && z != y ==> #[trigger] new.asset_untouched(old, z)
    }

    /// A market maker with no pools and an empty ledger.
    pub fn new(config: Config) -> (r: Self)
        requires
            config.exchange_fee < PARTS_PER_MILLION,
        ensures
            r.wf(),
            r.config == config,
            r.ledger.assets@.len() == 0,
            forall|p: AssetPair| #[trigger] r.registry.total(p) == 0,
            forall|x: AssetId, w: AccountId| #[trigger] r.ledger.balance(x, w) == 0,
    {
        Pallet { config, registry: LiquidityRegistry::new(), ledger: Ledger::new() }
    }

    /// The anti-griefing floor of `asset`: its minimum balance times the configured multiple.
    pub fn get_min_pool_amount(&self, asset: AssetId) -> (r: Result<Balance, ArithmeticError>)
        ensures
            r == self.min_pool(asset),
    {
        let m = self.ledger.minimum_balance(asset);
        match m.checked_mul(self.config.pool_min_amount_multiple) {
            Some(v) => Ok(v),
            None => Err(ArithmeticError::Overflow),
        }
    }

    /// The reserves of `asset_a` and `asset_b` in their pool, in the order asked; `(0, 0)`
    /// for a pair of one asset with itself.
    pub fn get_exchange_rate(&self, asset_a: AssetId, asset_b: AssetId) -> (r: (Balance, Balance))
        requires
            self.wf(),
        ensures
            r == self.rate(asset_a, asset_b),
    {
        match make_asset_pair(asset_a, asset_b) {
            Ok(pair) => {
                let pool = get_pool_account(self.config.pallet_id, pair);
                (self.ledger.balance_of(asset_a, pool), self.ledger.balance_of(asset_b, pool))
            },
            Err(_) => (0, 0),
        }
    }
    /// Adds liquidity for a pair: the first provider puts in both maxima, later ones an
    /// equal value of each asset at the current rate. Atomic: on any failure nothing changes.
    pub fn add_liquidity(
        &mut self,
        sender: AccountId,
        asset_a: AssetId,
        min_amount_a: Balance,
        max_amount_a: Balance,
        asset_b: AssetId,
        min_amount_b: Balance,
        max_amount_b: Balance,
    ) -> (r: Result<Event, Error>)
        requires
            old(self).wf(),
        ensures
            final(self).wf(),
            r == old(self).add_outcome(
                sender,
                asset_a,
                min_amount_a,
                max_amount_a,
                asset_b,
                min_amount_b,
                max_amount_b,
            ),
            r is Err ==> *final(self) == *old(self),
            r matches Ok(Event::LiquidityAdded { amount_a, amount_b, liquidity, .. }) ==> {
                let pair = canonical_pair(asset_a, asset_b)->Ok_0;
                let pool = old(self).pool_of(pair);
                &&& final(self).config == old(self).config
                &&& final(self).registry.moved(&old(self).registry, sender, pair, liquidity as int, true)
                &&& Self::two_moves(
                    &final(self).ledger,
                    &old(self).ledger,
                    asset_a,
                    sender,
                    pool,
                    amount_a as nat,
                    asset_b,
                    sender,
                    pool,
                    amount_b as nat,
                )
            },
    {
        let pair = match make_asset_pair(asset_a, asset_b) {
            Ok(p) => p,
            Err(_) => return Err(Error::AssetsIdentical),
        };
        let total = self.registry.get_total(pair);
        let pool = get_pool_account(self.config.pallet_id, pair);
        let reserve_a = self.ledger.balance_of(asset_a, pool);
        let reserve_b = self.ledger.balance_of(asset_b, pool);
        let (claims, amount_a, amount_b) = match plan_add_liquidity(
            total,
            reserve_a,
            reserve_b,
            min_amount_a,
            max_amount_a,
            min_amount_b,
            max_amount_b,
            self.config.initial_liquidity_per_asset_unit,
        ) {
            Ok(plan) => plan,
            Err(e) => return Err(e),
        };
        let moved_a = match self.ledger.check_transfer(asset_a, sender, pool, amount_a, false) {
            Ok(x) => x,
            Err(e) => return Err(Error::Token(e)),
        };
        let pool_a = match arith::add(reserve_a, moved_a) {
            Ok(v) => v,
            Err(e) => return Err(Error::Arithmetic(e)),
        };
        let moved_b = match self.ledger.check_transfer(asset_b, sender, pool, amount_b, false) {
            Ok(x) => x,
            Err(e) => return Err(Error::Token(e)),
        };
        let pool_b = match arith::add(reserve_b, moved_b) {
            Ok(v) => v,
            Err(e) => return Err(Error::Arithmetic(e)),
        };
        let new_total = match arith::add(total, claims) {
            Ok(v) => v,
            Err(e) => return Err(Error::Arithmetic(e)),
        };
        let new_share = self.registry.get_account(sender, pair) + claims;
        match check_pool_share(pool_a, new_share, new_total, self.get_min_pool_amount(asset_a)) {
            Ok(_) => {},
            Err(e) => return Err(e),
        }
        match check_pool_share(pool_b, new_share, new_total, self.get_min_pool_amount(asset_b)) {
            Ok(_) => {},
            Err(e) => return Err(e),
        }
        let ghost before = self.ledger;
        let ta = self.ledger.transfer(asset_a, sender, pool, amount_a, false);
        assert(ta == Ok::<u64, TokenError>(moved_a));
        let ghost mid = self.ledger;
        assert(mid.asset_untouched(&before, asset_b));
        assert(mid.transfer_outcome(asset_b, sender, pool, amount_b, false)
            == before.transfer_outcome(asset_b, sender, pool, amount_b, false));
        let tb = self.ledger.transfer(asset_b, sender, pool, amount_b, false);
        assert(tb == Ok::<u64, TokenError>(moved_b));
        proof {
            assert(self.ledger.asset_untouched(&mid, asset_a));
            assert forall|w: AccountId| #[trigger] self.ledger.balance(asset_a, w) == before.balance(asset_a, w)
                - (if w == sender && sender != pool { moved_a as int } else { 0 })
                + (if w == pool && sender != pool { moved_a as int } else { 0 }) by {
                assert(self.ledger.balance(asset_a, w) == mid.balance(asset_a, w));
                assert(mid.balance(asset_a, w) == before.balance(asset_a, w)
                    - (if w == sender && sender != pool { moved_a as int } else { 0 })
                    + (if w == pool && sender != pool { moved_a as int } else { 0 }));
            }
            assert forall|z: AssetId| z != asset_a && z != asset_b implies #[trigger] self.ledger.asset_untouched(&before, z) by {
                assert(mid.asset_untouched(&before, z));
                assert(self.ledger.asset_untouched(&mid, z));
            }
        }
        self.registry.deposit(sender, pair, claims);
        Ok(
            Event::LiquidityAdded {
                who: sender,
                asset_a,
                amount_a: moved_a,
                asset_b,
                amount_b: moved_b,
                liquidity: claims,
            },
        )
    }
    /// Redeems `liquidity` claims on a pair for the matching share of its reserves, rounded
    /// down. While claims remain the pool is kept alive. Atomic: on any failure nothing
    /// changes.
    #[verifier::rlimit(60)]
    pub fn remove_liquidity(&mut self, sender: AccountId, asset_a: AssetId, asset_b: AssetId, liquidity: Balance) -> (r:
        Result<Event, Error>)
        requires
            old(self).wf(),
        ensures
            final(self).wf(),
            r == old(self).remove_outcome(sender, asset_a, asset_b, liquidity),
            r is Err ==> *final(self) == *old(self),
            r matches Ok(Event::LiquidityRemoved { amount_a, amount_b, .. }) ==> {
                let pair = canonical_pair(asset_a, asset_b)->Ok_0;
                let pool = old(self).pool_of(pair);
                &&& final(self).config == old(self).config
                &&& final(self).registry.moved(&old(self).registry, sender, pair, liquidity as int, false)
                &&& Self::two_moves(
                    &final(self).ledger,
                    &old(self).ledger,
                    asset_a,
                    pool,
                    sender,
                    amount_a as nat,
                    asset_b,
                    pool,
                    sender,
                    amount_b as nat,
                )
            },
    {
        let pair = match make_asset_pair(asset_a, asset_b) {
            Ok(p) => p,
            Err(_) => return Err(Error::AssetsIdentical),
        };
        let total = self.registry.get_total(pair);
        let share = self.registry.get_account(sender, pair);
        let pool = get_pool_account(self.config.pallet_id, pair);
        let reserve_a = self.ledger.balance_of(asset_a, pool);
        let reserve_b = self.ledger.balance_of(asset_b, pool);
        let (amount_a, amount_b) = match plan_remove_liquidity(total, share, reserve_a, reserve_b, liquidity) {
            Ok(plan) => plan,
            Err(e) => return Err(e),
        };
        let new_total = total - liquidity;
        let new_share = share - liquidity;
        let keep_alive = new_total != 0;
        let cap_a = self.ledger.reducible_balance(asset_a, pool, keep_alive);
        let amount_a = if amount_a <= cap_a { amount_a } else { cap_a };
        let cap_b = self.ledger.reducible_balance(asset_b, pool, keep_alive);
        let amount_b = if amount_b <= cap_b { amount_b } else { cap_b };
        let moved_a = match self.ledger.check_transfer(asset_a, pool, sender, amount_a, keep_alive) {
            Ok(x) => x,
            Err(e) => return Err(Error::Token(e)),
        };
        let pool_a = match arith::sub(reserve_a, moved_a) {
            Ok(v) => v,
            Err(e) => return Err(Error::Arithmetic(e)),
        };
        let moved_b = match self.ledger.check_transfer(asset_b, pool, sender, amount_b, keep_alive) {
            Ok(x) => x,
            Err(e) => return Err(Error::Token(e)),
        };
        let pool_b = match arith::sub(reserve_b, moved_b) {
            Ok(v) => v,
            Err(e) => return Err(Error::Arithmetic(e)),
        };
        if new_share != 0 {
            match check_pool_share(pool_a, new_share, new_total, self.get_min_pool_amount(asset_a)) {
                Ok(_) => {},
                Err(e) => return Err(e),
            }
            match check_pool_share(pool_b, new_share, new_total, self.get_min_pool_amount(asset_b)) {
                Ok(_) => {},
                Err(e) => return Err(e),
            }
        }
        let ghost before = self.ledger;
        let ta = self.ledger.transfer(asset_a, pool, sender, amount_a, keep_alive);
        assert(ta == Ok::<u64, TokenError>(moved_a));
        let ghost mid = self.ledger;
        assert(mid.asset_untouched(&before, asset_b));
        assert(mid.transfer_outcome(asset_b, pool, sender, amount_b, keep_alive)
            == before.transfer_outcome(asset_b, pool, sender, amount_b, keep_alive));
        let tb = self.ledger.transfer(asset_b, pool, sender, amount_b, keep_alive);
        assert(tb == Ok::<u64, TokenError>(moved_b));
        proof {
            assert(self.ledger.asset_untouched(&mid, asset_a));
            assert forall|w: AccountId| #[trigger] self.ledger.balance(asset_a, w) == before.balance(asset_a, w)
                - (if w == pool && pool != sender { moved_a as int } else { 0 })
                + (if w == sender && pool != sender { moved_a as int } else { 0 }) by {
                assert(self.ledger.balance(asset_a, w) == mid.balance(asset_a, w));
                assert(mid.balance(asset_a, w) == before.balance(asset_a, w)
                    - (if w == pool && pool != sender { moved_a as int } else { 0 })
                    + (if w == sender && pool != sender { moved_a as int } else { 0 }));
            }
            assert forall|z: AssetId| z != asset_a && z != asset_b implies #[trigger] self.ledger.asset_untouched(&before, z) by {
                assert(mid.asset_untouched(&before, z));
                assert(self.ledger.asset_untouched(&mid, z));
            }
        }
        self.registry.withdraw(sender, pair, liquidity);
        Ok(
            Event::LiquidityRemoved {
                who: sender,
                asset_a,
                amount_a: moved_a,
                asset_b,
                amount_b: moved_b,
                liquidity,
            },
        )
    }

    /// Exchanges `source_amount` of one asset for the other at the pool's rate, less the fee
    /// that stays in the pool; fails when the payout would be below `min_dest_amount`.
    /// Atomic: on any failure nothing changes. Claims are untouched.
    pub fn exchange(
        &mut self,
        sender: AccountId,
        source_asset: AssetId,
        source_amount: Balance,
        dest_asset: AssetId,
        min_dest_amount: Balance,
    ) -> (r: Result<Event, Error>)
        requires
            old(self).wf(),
        ensures
            final(self).wf(),
            r == old(self).exchange_outcome(sender, source_asset, source_amount, dest_asset, min_dest_amount),
            r is Err ==> *final(self) == *old(self),
            r matches Ok(Event::Exchanged { source_amount: xs, dest_amount: xd, .. }) ==> {
                let pair = canonical_pair(source_asset, dest_asset)->Ok_0;
                let pool = old(self).pool_of(pair);
                &&& final(self).config == old(self).config
                &&& final(self).registry == old(self).registry
                &&& Self::two_moves(
                    &final(self).ledger,
                    &old(self).ledger,
                    source_asset,
                    sender,
                    pool,
                    xs as nat,
                    dest_asset,
                    pool,
                    sender,
                    xd as nat,
                )
            },
    {
        let pair = match make_asset_pair(source_asset, dest_asset) {
            Ok(p) => p,
            Err(_) => return Err(Error::AssetsIdentical),
        };
        let pool = get_pool_account(self.config.pallet_id, pair);
        let reserve_source = self.ledger.balance_of(source_asset, pool);
        let reserve_dest = self.ledger.balance_of(dest_asset, pool);
        let dest_amount = match plan_exchange(self.config.exchange_fee, reserve_source, reserve_dest, source_amount) {
            Ok(d) => d,
            Err(e) => return Err(e),
        };
        let cap = self.ledger.reducible_balance(dest_asset, pool, true);
        let dest_amount = if dest_amount <= cap { dest_amount } else { cap };
        if dest_amount < min_dest_amount {
            return Err(Error::UnexpectedExchangeRate);
        }
        let moved_source = match self.ledger.check_transfer(source_asset, sender, pool, source_amount, false) {
            Ok(x) => x,
            Err(e) => return Err(Error::Token(e)),
        };
        let moved_dest = match self.ledger.check_transfer(dest_asset, pool, sender, dest_amount, true) {
            Ok(x) => x,
            Err(e) => return Err(Error::Token(e)),
        };
        let ghost before = self.ledger;
        let ts = self.ledger.transfer(source_asset, sender, pool, source_amount, false);
        assert(ts == Ok::<u64, TokenError>(moved_source));
        let ghost mid = self.ledger;
        assert(mid.asset_untouched(&before, dest_asset));
        assert(mid.transfer_outcome(dest_asset, pool, sender, dest_amount, true)
            == before.transfer_outcome(dest_asset, pool, sender, dest_amount, true));
        let td = self.ledger.transfer(dest_asset, pool, sender, dest_amount, true);
        assert(td == Ok::<u64, TokenError>(moved_dest));
        proof {
            assert(self.ledger.asset_untouched(&mid, source_asset));
            assert forall|w: AccountId| #[trigger] self.ledger.balance(source_asset, w) == before.balance(source_asset, w)
                - (if w == sender && sender != pool { moved_source as int } else { 0 })
                + (if w == pool && sender != pool { moved_source as int } else { 0 }) by {
                assert(self.ledger.balance(source_asset, w) == mid.balance(source_asset, w));
                assert(mid.balance(source_asset, w) == before.balance(source_asset, w)
                    - (if w == sender && sender != pool { moved_source as int } else { 0 })
                    + (if w == pool && sender != pool { moved_source as int } else { 0 }));
            }
            assert forall|z: AssetId| z != source_asset && z != dest_asset implies #[trigger] self.ledger.asset_untouched(&before, z) by {
                assert(mid.asset_untouched(&before, z));
                assert(self.ledger.asset_untouched(&mid, z));
            }
        }
        Ok(
            Event::Exchanged {
                who: sender,
                source_asset,
                source_amount: moved_source,
                dest_asset,
                dest_amount: moved_dest,
            },
        )
    }
}

} // verus!
