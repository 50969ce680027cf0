//! Liquidity-claim bookkeeping: the claim total of each pair and each account's claims.
use vstd::prelude::*;
use crate::pair::{AccountId, AssetPair};
use crate::table::{Slot, Table, TableKey, sum_for, without, lemma_without};

verus! {

/// The claims of one account on one pair's pool.
#[derive(Clone, Copy, Debug, PartialEq, Eq, Structural)]
pub struct ShareKey {
    pub account: AccountId,
    pub pair: AssetPair,
}

impl TableKey for AssetPair {
    fn same(&self, other: &Self) -> (r: bool) {
        self.first == other.first && self.second == other.second
    }
}

impl TableKey for ShareKey {
    fn same(&self, other: &Self) -> (r: bool) {
        self.account == other.account && self.pair.first == other.pair.first && self.pair.second
            == other.pair.second
    }
}

/// The sum of all accounts' claims on `p`.
pub open spec fn pair_sum(s: Seq<Slot<ShareKey>>, p: AssetPair) -> nat
    decreases s.len(),
{
    if s.len() == 0 {
        0
    } else {
        pair_sum(s.drop_last(), p) + if s.last().key.pair == p {
            s.last().amount as nat
        } else {
            0
        }
    }
}

/// The claim total of each pair, and each account's claims on it.
#[derive(Debug)]
pub struct LiquidityRegistry {
    pub totals: Table<AssetPair>,
    pub shares: Table<ShareKey>,
}

impl LiquidityRegistry {
    /// The number of claims handed out on `p`'s pool.
    pub open spec fn total(&self, p: AssetPair) -> nat {
        self.totals.value(p)
    }

    /// The claims that `a` holds on `p`'s pool.
    pub open spec fn share(&self, a: AccountId, p: AssetPair) -> nat {
        self.shares.value(ShareKey { account: a, pair: p })
    }

    /// The sum of the claims of all accounts on `p`'s pool.
    pub open spec fn claims_held(&self, p: AssetPair) -> nat {
        pair_sum(self.shares.slots@, p)
    }

    /// Both tables are sparse and bounded, and every pair's total is the sum of its accounts'
    /// claims.
    pub open spec fn wf(&self) -> bool {
        &&& self.totals.wf()
        &&& self.shares.wf()
        &&& forall|p: AssetPair| #[trigger] self.claims_held(p) == self.total(p)
    }

    /// The registry is `old` with `claims` more (or fewer, when `up` is false) on `p` for
    /// `a`, and nothing else changed.
    pub open spec fn moved(&self, old: &Self, a: AccountId, p: AssetPair, claims: int, up: bool) -> bool {
        let d = if up { claims } else { -claims };
        &&& self.total(p) == old.total(p) + d
        &&& self.share(a, p) == old.share(a, p) + d
        &&& forall|q: AssetPair| q != p ==> #[trigger] self.total(q) == old.total(q)
        &&& forall|b: AccountId, q: AssetPair|
            (b != a || q != p) ==> #[trigger] self.share(b, q) == old.share(b, q)
    }

    pub fn new() -> (r: Self)
        ensures
            r.wf(),
            forall|p: AssetPair| #[trigger] r.total(p) == 0,
            forall|a: AccountId, p: AssetPair| #[trigger] r.share(a, p) == 0,
    {
        LiquidityRegistry { totals: Table::new(), shares: Table::new() }
    }

    /// The claim total of `p` (zero when absent).
    pub fn get_total(&self, p: AssetPair) -> (r: u64)
        requires
            self.wf(),
        ensures
            r == self.total(p),
    {
        self.totals.get(p)
    }

    /// The claims of `a` on `p` (zero when absent).
    pub fn get_account(&self, a: AccountId, p: AssetPair) -> (r: u64)
        requires
            self.wf(),
        ensures
            r == self.share(a, p),
            r <= self.total(p),
    {
        proof {
            lemma_share_within_pair(self.shares.slots@, ShareKey { account: a, pair: p });
            assert(self.claims_held(p) == self.total(p));
        }
        self.shares.get(ShareKey { account: a, pair: p })
    }

    /// Mints `claims` new claims on `p` to `a`.
    pub fn deposit(&mut self, a: AccountId, p: AssetPair, claims: u64)
        requires
            old(self).wf(),
            old(self).total(p) + claims <= u64::MAX,
        ensures
            final(self).wf(),
            final(self).moved(old(self), a, p, claims as int, true),
    {
        let key = ShareKey { account: a, pair: p };
        let t = self.totals.get(p);
        let s = self.get_account(a, p);
        self.set_both(key, t + claims, s + claims);
    }

    /// Burns `claims` of the claims of `a` on `p`.
    pub fn withdraw(&mut self, a: AccountId, p: AssetPair, claims: u64)
        requires
            old(self).wf(),
            claims <= old(self).share(a, p),
        ensures
            final(self).wf(),
            final(self).moved(old(self), a, p, claims as int, false),
    {
        let key = ShareKey { account: a, pair: p };
        let t = self.totals.get(p);
        let s = self.get_account(a, p);
        self.set_both(key, t - claims, s - claims);
    }

    /// Sets the total of `key.pair` and the claims under `key` together, keeping their
    /// difference.
    fn set_both(&mut self, key: ShareKey, t: u64, s: u64)
        requires
            old(self).wf(),
            t - old(self).total(key.pair) == s - old(self).share(key.account, key.pair),
        ensures
            final(self).wf(),
            final(self).total(key.pair) == t,
            final(self).share(key.account, key.pair) == s,
            forall|q: AssetPair| q != key.pair ==> #[trigger] final(self).total(q) == old(self).total(q),
            forall|b: AccountId, q: AssetPair|
                (b != key.account || q != key.pair) ==> #[trigger] final(self).share(b, q)
                    == old(self).share(b, q),
    {
        let ghost before = self.shares.slots@;
        self.totals.set(key.pair, t);
        self.shares.set(key, s);
        proof {
            lemma_pair_sum_without(before, key);
            let w = without(before, key);
            if s != 0 {
                assert(self.shares.slots@.drop_last() =~= w);
            }
            assert forall|q: AssetPair| #[trigger] self.claims_held(q) == self.total(q) by {
                assert(old(self).claims_held(q) == old(self).total(q));
                assert(pair_sum(w, q) == pair_sum(before, q) - (if q == key.pair {
                    sum_for(before, key) as int
                } else {
                    0
                }));
                if s != 0 {
                    let n = self.shares.slots@;
                    assert(n.last() == Slot { key: key, amount: s });
                    assert(pair_sum(n, q) == pair_sum(n.drop_last(), q) + if n.last().key.pair == q {
                        n.last().amount as nat
                    } else {
                        0
                    });
                }
            }
            assert forall|b: AccountId, q: AssetPair|
                (b != key.account || q != key.pair) implies #[trigger] self.share(b, q)
                    == old(self).share(b, q) by {
                assert(ShareKey { account: b, pair: q } != key);
            }
        }
    }
}

/// Dropping the slots of one key lowers the pair sum of that key's pair by its sum.
pub proof fn lemma_pair_sum_without(s: Seq<Slot<ShareKey>>, k: ShareKey)
    ensures
        forall|q: AssetPair| #[trigger] pair_sum(without(s, k), q) == pair_sum(s, q) - (if q == k.pair {
            sum_for(s, k) as int
        } else {
            0
        }),
    decreases s.len(),
{
    if s.len() > 0 {
        lemma_pair_sum_without(s.drop_last(), k);
        let w = without(s.drop_last(), k);
        assert forall|q: AssetPair| #[trigger] pair_sum(without(s, k), q) == pair_sum(s, q) - (if q
            == k.pair {
            sum_for(s, k) as int
        } else {
            0
        }) by {
            assert(pair_sum(w, q) == pair_sum(s.drop_last(), q) - (if q == k.pair {
                sum_for(s.drop_last(), k) as int
            } else {
                0
            }));
            if s.last().key != k {
                assert(w.push(s.last()).drop_last() =~= w);
                assert(without(s, k) == w.push(s.last()));
            } else {
                assert(without(s, k) == w);
            }
        }
    }
}

/// One account's claims never exceed the claims held on the pair.
pub proof fn lemma_share_within_pair(s: Seq<Slot<ShareKey>>, k: ShareKey)
    ensures
        sum_for(s, k) <= pair_sum(s, k.pair),
    decreases s.len(),
{
    if s.len() > 0 {
        lemma_share_within_pair(s.drop_last(), k);
    }
}

} // verus!
