//! Properties that hold across operations and states of the market maker.
use vstd::prelude::*;
use vstd::arithmetic::div_mod::{lemma_fundamental_div_mod, lemma_mod_pos_bound};
use crate::arith::{PARTS_PER_MILLION, ceil_mul_div, fee_of, floor_mul_div};
use crate::pair::{AssetId, AssetPair, lemma_canonical_pair_symmetric};
use crate::pair::{AccountId, canonical_pair};
use crate::pallet::{Event, Pallet};
use crate::pool::{add_plan, exchange_plan, remove_plan};

verus! {

/// `q = n / d` is the largest multiple count of `d` within `n`.
proof fn lemma_div_bounds(n: int, d: int)
    requires
        0 <= n,
        0 < d,
    ensures
        (n / d) * d <= n < (n / d) * d + d,
{
    lemma_fundamental_div_mod(n, d);
    lemma_mod_pos_bound(n, d);
    assert(d * (n / d) == (n / d) * d) by (nonlinear_arith);
}

/// Rounding up never undershoots: `ceil(x * y / z) * z >= x * y`.
proof fn lemma_ceil_covers(x: int, y: int, z: int)
    requires
        0 <= x,
        0 <= y,
        0 < z,
    ensures
        ceil_mul_div(x, y, z) * z >= x * y,
{
    assert(0 <= x * y) by (nonlinear_arith)
        requires
            0 <= x,
            0 <= y,
    ;
    lemma_div_bounds(x * y + z - 1, z);
}

/// Every pair's claim total is the sum of all accounts' claims on that pair, in every state
/// that the operations reach (each of them keeps the market maker well formed).
pub proof fn lemma_claims_conserved(m: &Pallet)
    requires
        m.wf(),
    ensures
        forall|p: AssetPair| #[trigger] m.registry.claims_held(p) == m.registry.total(p),
{
}

/// The rate of `(a, b)` is the rate of `(b, a)` with its two reserves swapped.
pub proof fn lemma_rate_symmetric(m: &Pallet, a: AssetId, b: AssetId)
    ensures
        m.rate(a, b) == (m.rate(b, a).1, m.rate(b, a).0),
{
    lemma_canonical_pair_symmetric(a, b);
}

/// An exchange never lowers the product of the pool's reserves, and raises it whenever a fee
/// is taken; this holds for any amount paid in that is at least the one asked and any payout
/// that is at most the planned one (a dust sweep or a cap).
pub proof fn lemma_exchange_keeps_product(
    fee_parts: u32,
    rs: u64,
    rd: u64,
    amount: u64,
    paid_in: int,
    paid_out: int,
)
    requires
        fee_parts < PARTS_PER_MILLION,
        exchange_plan(fee_parts, rs, rd, amount) is Ok,
        paid_in >= amount,
        0 <= paid_out <= exchange_plan(fee_parts, rs, rd, amount)->Ok_0,
    ensures
        (rs + paid_in) * (rd - paid_out) >= rs * rd,
        fee_of(fee_parts as int, amount as int) > 0 ==> (rs + paid_in) * (rd - paid_out) > rs * rd,
{
    let fee = fee_of(fee_parts as int, amount as int);
    assert(fee <= amount) by {
        assert(amount * fee_parts <= amount * 1_000_000) by (nonlinear_arith)
            requires
                fee_parts <= 1_000_000,
        ;
        assert((amount * fee_parts + 999_999) / 1_000_000 <= amount) by (nonlinear_arith)
            requires
                amount * fee_parts <= amount * 1_000_000,
                0 <= amount * fee_parts,
        ;
    }
    let net = rs + amount - fee;
    let nd = ceil_mul_div(rs as int, rd as int, net);
    lemma_ceil_covers(rs as int, rd as int, net);
    crate::pool::lemma_new_dest_within(rs as int, rd as int, net);
    let left = rs + paid_in;
    let right = rd - paid_out;
    assert(left >= net && right >= nd);
    assert(left * right >= net * nd) by (nonlinear_arith)
        requires
            left >= net,
            net > 0,
            right >= nd,
            nd >= 1,
    ;
    if fee > 0 {
        assert(left * right > net * nd) by (nonlinear_arith)
            requires
                left > net,
                net > 0,
                right >= nd,
                nd >= 1,
        ;
    }
}

/// A successful exchange leaves the pool's reserves with a product at least the old one:
/// at least the asked amount comes in and at most the planned payout goes out.
pub proof fn lemma_exchange_outcome_keeps_product(
    m: &Pallet,
    sender: AccountId,
    source_asset: AssetId,
    source_amount: u64,
    dest_asset: AssetId,
    min_dest_amount: u64,
)
    requires
        m.wf(),
        m.exchange_outcome(sender, source_asset, source_amount, dest_asset, min_dest_amount) is Ok,
    ensures
        ({
            let pool = m.pool_of(canonical_pair(source_asset, dest_asset)->Ok_0);
            let rs = m.ledger.balance(source_asset, pool);
            let rd = m.ledger.balance(dest_asset, pool);
            match m.exchange_outcome(sender, source_asset, source_amount, dest_asset, min_dest_amount) {
                Ok(Event::Exchanged { source_amount: xs, dest_amount: xd, .. }) => (rs + xs) * (rd - xd)
                    >= rs * rd,
                _ => false,
            }
        }),
{
    let pair = canonical_pair(source_asset, dest_asset)->Ok_0;
    let pool = m.pool_of(pair);
    let rs = m.ledger.balance(source_asset, pool) as u64;
    let rd = m.ledger.balance(dest_asset, pool) as u64;
    let d = exchange_plan(m.config.exchange_fee, rs, rd, source_amount)->Ok_0;
    let capped = crate::pallet::min_nat(d as nat, m.ledger.reducible(dest_asset, pool, true)) as u64;
    let xs = m.ledger.transfer_outcome(source_asset, sender, pool, source_amount, false)->Ok_0;
    let xd = m.ledger.transfer_outcome(dest_asset, pool, sender, capped, true)->Ok_0;
    assert(xs >= source_amount);
    assert(xd == capped);
    lemma_exchange_keeps_product(m.config.exchange_fee, rs, rd, source_amount, xs as int, xd as int);
}

/// Adding liquidity and redeeming the claims just minted at once pays out no more of either
/// asset than was paid in, when a pool without claims holds no reserves.
pub proof fn lemma_add_then_remove_no_gain(
    total: u64,
    ra: u64,
    rb: u64,
    min_a: u64,
    max_a: u64,
    min_b: u64,
    max_b: u64,
    per_unit: u64,
    paid_a: u64,
    paid_b: u64,
    share: u64,
)
    requires
        add_plan(total, ra, rb, min_a, max_a, min_b, max_b, per_unit) is Ok,
        paid_a >= add_plan(total, ra, rb, min_a, max_a, min_b, max_b, per_unit)->Ok_0.1,
        paid_b >= add_plan(total, ra, rb, min_a, max_a, min_b, max_b, per_unit)->Ok_0.2,
        total == 0 ==> ra == 0 && rb == 0,
        total + add_plan(total, ra, rb, min_a, max_a, min_b, max_b, per_unit)->Ok_0.0 <= u64::MAX,
        ra + paid_a <= u64::MAX,
        rb + paid_b <= u64::MAX,
    ensures
        ({
            let claims = add_plan(total, ra, rb, min_a, max_a, min_b, max_b, per_unit)->Ok_0.0;
            match remove_plan((total + claims) as u64, share, (ra + paid_a) as u64, (rb + paid_b) as u64, claims) {
                Ok((out_a, out_b)) => out_a <= paid_a && out_b <= paid_b,
                Err(_) => true,
            }
        }),
{
    let (c, a, b) = add_plan(total, ra, rb, min_a, max_a, min_b, max_b, per_unit)->Ok_0;
    let t = total + c;
    if t > 0 {
        lemma_share_of_own_deposit(total as int, c as int, ra as int, a as int, paid_a as int);
        lemma_share_of_own_deposit(total as int, c as int, rb as int, b as int, paid_b as int);
    }
}

/// With `paid * total >= claims * reserve` (or an empty pool without claims), redeeming
/// `claims` of `total + claims` from `reserve + paid` yields at most `paid`.
proof fn lemma_share_of_own_deposit(total: int, claims: int, reserve: int, asked: int, paid: int)
    requires
        0 <= total,
        0 <= claims,
        0 <= reserve,
        0 <= asked <= paid,
        total + claims > 0,
        total == 0 ==> reserve == 0,
        total > 0 ==> asked == ceil_mul_div(claims, reserve, total),
    ensures
        floor_mul_div(claims, reserve + paid, total + claims) <= paid,
{
    let t = total + claims;
    if total > 0 {
        lemma_ceil_covers(claims, reserve, total);
        assert(claims * (reserve + paid) <= paid * t) by (nonlinear_arith)
            requires
                asked * total >= claims * reserve,
                paid >= asked,
                total > 0,
                t == total + claims,
                claims >= 0,
        ;
    } else {
        assert(claims * (reserve + paid) == paid * t) by (nonlinear_arith)
            requires
                reserve == 0,
                t == claims,
        ;
    }
    assert(0 <= claims * (reserve + paid)) by (nonlinear_arith)
        requires
            0 <= claims,
            0 <= reserve + paid,
    ;
    lemma_div_bounds(claims * (reserve + paid), t);
    assert((claims * (reserve + paid)) / t <= paid) by (nonlinear_arith)
        requires
            ((claims * (reserve + paid)) / t) * t <= claims * (reserve + paid),
            claims * (reserve + paid) <= paid * t,
            t > 0,
    ;
}

} // verus!
