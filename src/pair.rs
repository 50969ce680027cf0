//! Canonical, order-independent asset pairs and the accounts that hold their pools.
use vstd::prelude::*;

verus! {

/// Identifier of a fungible asset type.
pub type AssetId = u32;

/// Identifier of an account of the asset ledger.
pub type AccountId = u128;

/// Two distinct assets, in canonical order.
#[derive(Clone, Copy, Debug, PartialEq, Eq, Structural)]
pub struct AssetPair {
    pub first: AssetId,
    pub second: AssetId,
}

/// The pair canonicalisation refuses a pair of one asset with itself.
#[derive(Clone, Copy, Debug, PartialEq, Eq, Structural)]
pub struct AssetsIdentical;

/// The canonical byte encoding of an asset id: four bytes, least significant first.
pub open spec fn le_bytes(a: AssetId) -> Seq<u8> {
    seq![
        (a % 256) as u8,
        ((a / 256) % 256) as u8,
        ((a / 65536) % 256) as u8,
        (a / 16777216) as u8,
    ]
}

/// Lexicographic order on byte strings (a proper prefix comes first).
pub open spec fn lex_lt(x: Seq<u8>, y: Seq<u8>) -> bool
    decreases x.len(),
{
    if x.len() == 0 || y.len() == 0 {
        x.len() == 0 && y.len() > 0
    } else if x[0] != y[0] {
        x[0] < y[0]
    } else {
        lex_lt(x.drop_first(), y.drop_first())
    }
}

/// `a` comes before `b` in the canonical order of asset ids.
pub open spec fn encoded_before(a: AssetId, b: AssetId) -> bool {
    lex_lt(le_bytes(a), le_bytes(b))
}

/// The canonical pair of `a` and `b`, or the refusal when they are the same asset.
pub open spec fn canonical_pair(a: AssetId, b: AssetId) -> Result<AssetPair, AssetsIdentical> {
    if a == b {
        Err(AssetsIdentical)
    } else if encoded_before(a, b) {
        Ok(AssetPair { first: a, second: b })
    } else {
        Ok(AssetPair { first: b, second: a })
    }
}

/// The account that holds the reserves of `pair` for the pool family `pallet_id`.
pub open spec fn pool_account_of(pallet_id: u64, pair: AssetPair) -> AccountId {
    (pallet_id as int * 0x1_0000_0000_0000_0000 + pair.first as int * 0x1_0000_0000
        + pair.second as int) as u128
}

impl AssetPair {
    /// The two assets differ: the invariant of every canonical pair.
    pub open spec fn wf(self) -> bool {
        self.first != self.second && encoded_before(self.first, self.second)
    }
}

/// The canonical encoding of an asset id.
pub fn encode_asset_id(a: AssetId) -> (r: Vec<u8>)
    ensures
        r@ == le_bytes(a),
{
    let v: Vec<u8> = vec![
        (a % 256) as u8,
        ((a / 256) % 256) as u8,
        ((a / 65536) % 256) as u8,
        (a / 16777216) as u8,
    ];
    assert(v@ =~= le_bytes(a));
    v
}

/// Lexicographic comparison of two byte strings.
pub fn bytes_less(x: &Vec<u8>, y: &Vec<u8>) -> (r: bool)
    ensures
        r == lex_lt(x@, y@),
{
    let mut i: usize = 0;
    assert(x@.subrange(0, x@.len() as int) =~= x@);
    assert(y@.subrange(0, y@.len() as int) =~= y@);
    while i < x.len() && i < y.len()
        invariant
            i <= x@.len(),
            i <= y@.len(),
            lex_lt(x@, y@) == lex_lt(x@.subrange(i as int, x@.len() as int), y@.subrange(i as int, y@.len() as int)),
        decreases x@.len() - i,
    {
        let ghost xs = x@.subrange(i as int, x@.len() as int);
        let ghost ys = y@.subrange(i as int, y@.len() as int);
        if x[i] != y[i] {
            assert(xs[0] == x@[i as int] && ys[0] == y@[i as int]);
            return x[i] < y[i];
        }
        assert(xs.drop_first() =~= x@.subrange(i + 1, x@.len() as int));
        assert(ys.drop_first() =~= y@.subrange(i + 1, y@.len() as int));
        i = i + 1;
    }
    i == x.len() && i < y.len()
}

/// Orders two distinct assets canonically; fails when they are the same asset.
pub fn make_asset_pair(a: AssetId, b: AssetId) -> (r: Result<AssetPair, AssetsIdentical>)
    ensures
        r == canonical_pair(a, b),
        r is Ok ==> r->Ok_0.wf(),
{
    if a == b {
        return Err(AssetsIdentical);
    }
    let ea = encode_asset_id(a);
    let eb = encode_asset_id(b);
    if bytes_less(&ea, &eb) {
        Ok(AssetPair { first: a, second: b })
    } else {
        proof {
            lemma_encoded_order_total(a, b);
        }
        Ok(AssetPair { first: b, second: a })
    }
}

/// The deterministic account that holds the reserves of a pair's pool.
pub fn get_pool_account(pallet_id: u64, pair: AssetPair) -> (r: AccountId)
    ensures
        r == pool_account_of(pallet_id, pair),
{
    (pallet_id as u128) * 0x1_0000_0000_0000_0000u128 + (pair.first as u128) * 0x1_0000_0000u128
        + (pair.second as u128)
}

/// Lexicographic order on byte strings of one length is strict and total.
pub proof fn lemma_lex_total(x: Seq<u8>, y: Seq<u8>)
    requires
        x.len() == y.len(),
    ensures
        x != y ==> (lex_lt(x, y) != lex_lt(y, x)),
        x == y ==> !lex_lt(x, y),
    decreases x.len(),
{
    if x.len() > 0 && x[0] == y[0] {
        lemma_lex_total(x.drop_first(), y.drop_first());
        if x != y {
            assert(x.drop_first() != y.drop_first()) by {
                if x.drop_first() == y.drop_first() {
                    assert(x =~= seq![x[0]] + x.drop_first());
                    assert(y =~= seq![y[0]] + y.drop_first());
                }
            }
        }
    } else if x.len() == 0 {
        assert(x =~= y);
    }
}

/// Distinct asset ids have distinct encodings.
pub proof fn lemma_le_bytes_injective(a: AssetId, b: AssetId)
    requires
        le_bytes(a) == le_bytes(b),
    ensures
        a == b,
{
    assert(le_bytes(a)[0] == le_bytes(b)[0]);
    assert(le_bytes(a)[1] == le_bytes(b)[1]);
    assert(le_bytes(a)[2] == le_bytes(b)[2]);
    assert(le_bytes(a)[3] == le_bytes(b)[3]);
}

/// For two distinct asset ids, exactly one comes first in the canonical order.
pub proof fn lemma_encoded_order_total(a: AssetId, b: AssetId)
    requires
        a != b,
    ensures
        encoded_before(a, b) != encoded_before(b, a),
{
    if le_bytes(a) == le_bytes(b) {
        lemma_le_bytes_injective(a, b);
    }
    lemma_lex_total(le_bytes(a), le_bytes(b));
}

/// The canonical pair does not depend on the order in which the two assets are named.
pub proof fn lemma_canonical_pair_symmetric(a: AssetId, b: AssetId)
    ensures
        canonical_pair(a, b) == canonical_pair(b, a),
{
    if a != b {
        lemma_encoded_order_total(a, b);
    }
}

/// Distinct pairs of one pool family are held by distinct accounts.
pub proof fn lemma_pool_account_injective(pallet_id: u64, p: AssetPair, q: AssetPair)
    requires
        pool_account_of(pallet_id, p) == pool_account_of(pallet_id, q),
    ensures
        p == q,
{
}

} // verus!
