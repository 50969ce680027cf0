//! A sparse table from keys to balances: an absent key and a zero balance are the same,
//! and no zero-valued slot is ever stored.
use vstd::prelude::*;

verus! {

/// A key that can be compared at run time with the meaning of `==`.
pub trait TableKey: Copy + Sized {
    fn same(&self, other: &Self) -> (r: bool)
        ensures
            r == (*self == *other),
    ;
}

#[derive(Clone, Copy, Debug)]
pub struct Slot<K> {
    pub key: K,
    pub amount: u64,
}

/// The slots of a table; a key's balance is the sum of the slots that carry it.
#[derive(Debug)]
pub struct Table<K> {
    pub slots: Vec<Slot<K>>,
}

/// The sum of the amounts stored under `k`.
pub open spec fn sum_for<K>(s: Seq<Slot<K>>, k: K) -> nat
    decreases s.len(),
{
    if s.len() == 0 {
        0
    } else {
        sum_for(s.drop_last(), k) + if s.last().key == k {
            s.last().amount as nat
        } else {
            0
        }
    }
}

/// The slots of `s` whose key is not `k`, in their order.
pub open spec fn without<K>(s: Seq<Slot<K>>, k: K) -> Seq<Slot<K>>
    decreases s.len(),
{
    if s.len() == 0 {
        s
    } else {
        let w = without(s.drop_last(), k);
        if s.last().key == k {
            w
        } else {
            w.push(s.last())
        }
    }
}

/// Every slot holds a non-zero amount.
pub open spec fn all_positive<K>(s: Seq<Slot<K>>) -> bool {
    forall|i: int| 0 <= i < s.len() ==> #[trigger] s[i].amount > 0
}

pub proof fn lemma_sum_prefix<K>(s: Seq<Slot<K>>, i: int, k: K)
    requires
        0 <= i <= s.len(),
    ensures
        sum_for(s.take(i), k) <= sum_for(s, k),
    decreases s.len(),
{
    if i < s.len() {
        assert(s.drop_last().take(i) =~= s.take(i));
        lemma_sum_prefix(s.drop_last(), i, k);
    } else {
        assert(s.take(i) =~= s);
    }
}

pub proof fn lemma_without<K>(s: Seq<Slot<K>>, k: K)
    ensures
        sum_for(without(s, k), k) == 0,
        forall|j: K| j != k ==> sum_for(without(s, k), j) == sum_for(s, j),
        all_positive(s) ==> all_positive(without(s, k)),
    decreases s.len(),
{
    if s.len() > 0 {
        lemma_without(s.drop_last(), k);
        let w = without(s.drop_last(), k);
        if s.last().key != k {
            assert(w.push(s.last()).drop_last() =~= w);
            assert forall|j: K| j != k implies sum_for(without(s, k), j) == sum_for(s, j) by {
                let wp = w.push(s.last());
                assert(without(s, k) == wp);
                assert(wp.last() == s.last());
                assert(sum_for(wp, j) == sum_for(wp.drop_last(), j) + if wp.last().key == j {
                    wp.last().amount as nat
                } else {
                    0
                });
                assert(sum_for(w, j) == sum_for(s.drop_last(), j));
            }
            if all_positive(s) {
                assert forall|i: int| 0 <= i < w.push(s.last()).len() implies #[trigger] w.push(
                    s.last(),
                )[i].amount > 0 by {
                    if i < w.len() {
                        assert(all_positive(s.drop_last()));
                    } else {
                        assert(s.last() == s[s.len() - 1]);
                    }
                }
            }
        } else {
            assert forall|j: K| j != k implies sum_for(without(s, k), j) == sum_for(s, j) by {
                assert(without(s, k) == w);
                assert(sum_for(w, j) == sum_for(s.drop_last(), j));
            }
            if all_positive(s) {
                assert(all_positive(s.drop_last()));
            }
        }
    }
}

impl<K> Table<K> {
    /// The balance stored under `k` (zero when absent).
    pub open spec fn value(&self, k: K) -> nat {
        sum_for(self.slots@, k)
    }

    pub open spec fn wf(&self) -> bool {
        &&& forall|k: K| #[trigger] self.value(k) <= u64::MAX
        &&& all_positive(self.slots@)
    }
}

impl<K: TableKey> Table<K> {
    pub fn new() -> (r: Self)
        ensures
            r.wf(),
            r.slots@.len() == 0,
            forall|k: K| #[trigger] r.value(k) == 0,
    {
        Table { slots: Vec::new() }
    }

    /// The balance stored under `k`.
    pub fn get(&self, k: K) -> (r: u64)
        requires
            self.wf(),
        ensures
            r == self.value(k),
    {
        let mut acc: u64 = 0;
        let mut i: usize = 0;
        while i < self.slots.len()
            invariant
                self.wf(),
                i <= self.slots@.len(),
                acc == sum_for(self.slots@.take(i as int), k),
            decreases self.slots@.len() - i,
        {
            let ghost s = self.slots@;
            assert(s.take(i + 1).drop_last() =~= s.take(i as int));
            proof {
                lemma_sum_prefix(s, i + 1, k);
                assert(self.value(k) <= u64::MAX);
            }
            if self.slots[i].key.same(&k) {
                acc = acc + self.slots[i].amount;
            }
            i = i + 1;
        }
        assert(self.slots@.take(i as int) =~= self.slots@);
        acc
    }

    /// Stores `v` under `k`, removing the key when `v` is zero.
    pub fn set(&mut self, k: K, v: u64)
        requires
            old(self).wf(),
        ensures
            final(self).wf(),
            final(self).slots@ == (if v == 0 {
                without(old(self).slots@, k)
            } else {
                without(old(self).slots@, k).push(Slot { key: k, amount: v })
            }),
            final(self).value(k) == v,
            forall|j: K| j != k ==> #[trigger] final(self).value(j) == old(self).value(j),
    {
        let mut kept: Vec<Slot<K>> = Vec::new();
        let mut i: usize = 0;
        while i < self.slots.len()
            invariant
                i <= self.slots@.len(),
                kept@ == without(self.slots@.take(i as int), k),
            decreases self.slots@.len() - i,
        {
            let ghost s = self.slots@;
            assert(s.take(i + 1).drop_last() =~= s.take(i as int));
            let slot = self.slots[i];
            if !slot.key.same(&k) {
                kept.push(slot);
            }
            i = i + 1;
        }
        assert(self.slots@.take(i as int) =~= self.slots@);
        proof {
            lemma_without(old(self).slots@, k);
        }
        if v != 0 {
            let ghost w = kept@;
            kept.push(Slot { key: k, amount: v });
            assert(kept@.drop_last() =~= w);
            assert forall|j: K| j != k implies #[trigger] sum_for(kept@, j) == sum_for(w, j) by {}
            assert(all_positive(kept@)) by {
                assert forall|i: int| 0 <= i < kept@.len() implies #[trigger] kept@[i].amount > 0 by {
                    if i < w.len() {
                        assert(kept@[i] == w[i]);
                    }
                }
            }
        }
        self.slots = kept;
        assert forall|j: K| #[trigger] self.value(j) <= u64::MAX by {
            if j != k {
                assert(old(self).value(j) <= u64::MAX);
            }
        }
    }
}

} // verus!
