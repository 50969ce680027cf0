//! The amounts that the three pool operations move, as pure functions of reserves and
//! claim totals.
use vstd::prelude::*;
use crate::arith::{
    self, ArithmeticError, Balance, PARTS_PER_MILLION, ceil_checked, ceil_mul_div, fee_of,
    floor_checked,
};
use crate::ledger::TokenError;

verus! {

#[derive(Clone, Copy, Debug, PartialEq, Eq, Structural)]
pub enum Error {
    /// The two assets provided were identical.
    AssetsIdentical,
    /// An account's share of a pool would be below the anti-griefing floor.
    InsufficientPoolAmount,
    /// The pool of the pair is empty.
    NoLiquidity,
    /// The effective rate is worse than the caller's stated bound.
    UnexpectedExchangeRate,
    /// A checked arithmetic step failed.
    Arithmetic(ArithmeticError),
    /// The asset ledger refused a transfer.
    Token(TokenError),
}

/// Claims minted and amounts asked of a provider, before the slippage bounds are applied.
pub open spec fn add_amounts(total: u64, ra: u64, rb: u64, max_a: u64, max_b: u64, per_unit: u64) -> Result<
    (u64, u64, u64),
    ArithmeticError,
> {
    if total == 0 {
        let m: int = if max_a >= max_b {
            max_a as int
        } else {
            max_b as int
        };
        let claims: int = if m * per_unit > u64::MAX {
            u64::MAX as int
        } else {
            m * per_unit
        };
        Ok((claims as u64, max_a, max_b))
    } else {
        let minted = if max_a * rb < max_b * ra {
            floor_checked(max_a as int, total as int, ra as int)
        } else {
            floor_checked(max_b as int, total as int, rb as int)
        };
        match minted {
            Err(e) => Err(e),
            Ok(c) => match ceil_checked(c as int, ra as int, total as int) {
                Err(e) => Err(e),
                Ok(a) => match ceil_checked(c as int, rb as int, total as int) {
                    Err(e) => Err(e),
                    Ok(b) => Ok((c, a, b)),
                },
            },
        }
    }
}

/// The claims to mint and the amounts to take for an add, with the slippage bounds applied.
pub open spec fn add_plan(
    total: u64,
    ra: u64,
    rb: u64,
    min_a: u64,
    max_a: u64,
    min_b: u64,
    max_b: u64,
    per_unit: u64,
) -> Result<(u64, u64, u64), Error> {
    match add_amounts(total, ra, rb, max_a, max_b, per_unit) {
        Err(e) => Err(Error::Arithmetic(e)),
        Ok((c, a, b)) => if a < min_a || b < min_b {
            Err(Error::UnexpectedExchangeRate)
        } else {
            Ok((c, a, b))
        },
    }
}

/// The amounts a removal of `liquidity` claims pays out before any cap, or why it fails.
pub open spec fn remove_plan(total: u64, share: u64, ra: u64, rb: u64, liquidity: u64) -> Result<
    (u64, u64),
    Error,
> {
    match floor_checked(liquidity as int, ra as int, total as int) {
        Err(e) => Err(Error::Arithmetic(e)),
        Ok(a) => match floor_checked(liquidity as int, rb as int, total as int) {
            Err(e) => Err(Error::Arithmetic(e)),
            Ok(b) => if liquidity > total || liquidity > share {
                Err(Error::Arithmetic(ArithmeticError::Underflow))
            } else {
                Ok((a, b))
            },
        },
    }
}

/// The destination amount an exchange pays out before any cap, or why it fails.
pub open spec fn exchange_plan(fee_parts: u32, rs: u64, rd: u64, amount: u64) -> Result<u64, Error> {
    if rs == 0 || rd == 0 {
        Err(Error::NoLiquidity)
    } else if rs + amount > u64::MAX {
        Err(Error::Arithmetic(ArithmeticError::Overflow))
    } else {
        Ok((rd - ceil_mul_div(rs as int, rd as int, rs + amount - fee_of(fee_parts as int, amount as int)))
            as u64)
    }
}

/// The anti-griefing floor: the minimum balance times the configured multiple.
pub open spec fn min_pool_of(min_balance: u64, multiple: u64) -> Result<u64, ArithmeticError> {
    if min_balance * multiple > u64::MAX {
        Err(ArithmeticError::Overflow)
    } else {
        Ok((min_balance * multiple) as u64)
    }
}

/// Whether an account holding `claims` of `total` on a pool with `reserve` keeps at least
/// the floor.
pub open spec fn share_check(reserve: int, claims: int, total: int, floor: Result<u64, ArithmeticError>) -> Result<
    (),
    Error,
> {
    match floor_checked(reserve, claims, total) {
        Err(e) => Err(Error::Arithmetic(e)),
        Ok(v) => match floor {
            Err(e) => Err(Error::Arithmetic(e)),
            Ok(m) => if v >= m {
                Ok(())
            } else {
                Err(Error::InsufficientPoolAmount)
            },
        },
    }
}

/// Claims to mint and amounts to take when a provider adds liquidity: the full maxima for
/// the first provider, else the scarcer maximum at the current rate, rounded against the
/// provider.
pub fn plan_add_liquidity(
    total: Balance,
    reserve_a: Balance,
    reserve_b: Balance,
    min_amount_a: Balance,
    max_amount_a: Balance,
    min_amount_b: Balance,
    max_amount_b: Balance,
    initial_liquidity_per_asset_unit: Balance,
) -> (r: Result<(Balance, Balance, Balance), Error>)
    ensures
        r == add_plan(
            total,
            reserve_a,
            reserve_b,
            min_amount_a,
            max_amount_a,
            min_amount_b,
            max_amount_b,
            initial_liquidity_per_asset_unit,
        ),
{
    let (claims, amount_a, amount_b) = if total == 0 {
        let m = if max_amount_a >= max_amount_b {
            max_amount_a
        } else {
            max_amount_b
        };
        let wide = arith::mul_wide(m, initial_liquidity_per_asset_unit);
        let claims = if wide > u64::MAX as u128 {
            u64::MAX
        } else {
            wide as u64
        };
        (claims, max_amount_a, max_amount_b)
    } else {
        let minted = if arith::mul_wide(max_amount_a, reserve_b) < arith::mul_wide(
            max_amount_b,
            reserve_a,
        ) {
            arith::mul_div_floor(max_amount_a, total, reserve_a)
        } else {
            arith::mul_div_floor(max_amount_b, total, reserve_b)
        };
        let claims = match minted {
            Ok(c) => c,
            Err(e) => return Err(Error::Arithmetic(e)),
        };
        let amount_a = match arith::mul_div_ceil(claims, reserve_a, total) {
            Ok(a) => a,
            Err(e) => return Err(Error::Arithmetic(e)),
        };
        let amount_b = match arith::mul_div_ceil(claims, reserve_b, total) {
            Ok(b) => b,
            Err(e) => return Err(Error::Arithmetic(e)),
        };
        (claims, amount_a, amount_b)
    };
    if amount_a < min_amount_a || amount_b < min_amount_b {
        return Err(Error::UnexpectedExchangeRate);
    }
    Ok((claims, amount_a, amount_b))
}

/// Amounts paid for redeeming `liquidity` claims, rounded down in favour of the pool; fails
/// when the claims exceed the total or the account's share.
pub fn plan_remove_liquidity(
    total: Balance,
    share: Balance,
    reserve_a: Balance,
    reserve_b: Balance,
    liquidity: Balance,
) -> (r: Result<(Balance, Balance), Error>)
    ensures
        r == remove_plan(total, share, reserve_a, reserve_b, liquidity),
{
    let amount_a = match arith::mul_div_floor(liquidity, reserve_a, total) {
        Ok(a) => a,
        Err(e) => return Err(Error::Arithmetic(e)),
    };
    let amount_b = match arith::mul_div_floor(liquidity, reserve_b, total) {
        Ok(b) => b,
        Err(e) => return Err(Error::Arithmetic(e)),
    };
    if liquidity > total || liquidity > share {
        return Err(Error::Arithmetic(ArithmeticError::Underflow));
    }
    Ok((amount_a, amount_b))
}

/// The destination amount for `amount` of the source asset: the fee stays in the pool and
/// the product of the reserves is kept, rounding the new destination reserve up.
pub fn plan_exchange(fee_parts: u32, reserve_source: Balance, reserve_dest: Balance, amount: Balance) -> (r: Result<Balance, Error>)
    requires
        fee_parts < PARTS_PER_MILLION,
    ensures
        r == exchange_plan(fee_parts, reserve_source, reserve_dest, amount),
{
    if reserve_source == 0 || reserve_dest == 0 {
        return Err(Error::NoLiquidity);
    }
    let fee = arith::per_million_ceil(fee_parts, amount);
    let gross = match arith::add(reserve_source, amount) {
        Ok(g) => g,
        Err(e) => return Err(Error::Arithmetic(e)),
    };
    let net = gross - fee;
    proof {
        lemma_new_dest_within(reserve_source as int, reserve_dest as int, net as int);
    }
    let new_dest = match arith::mul_div_ceil(reserve_source, reserve_dest, net) {
        Ok(d) => d,
        Err(e) => return Err(Error::Arithmetic(e)),
    };
    Ok(reserve_dest - new_dest)
}

/// With `rs <= net`, the rounded-up new destination reserve is a positive value at most `rd`.
pub proof fn lemma_new_dest_within(rs: int, rd: int, net: int)
    requires
        0 < rs <= net,
        0 < rd,
    ensures
        1 <= ceil_mul_div(rs, rd, net) <= rd,
{
    assert(rs * rd <= net * rd) by (nonlinear_arith)
        requires
            rs <= net,
            0 < rd,
    ;
    assert(rs * rd > 0) by (nonlinear_arith)
        requires
            0 < rs,
            0 < rd,
    ;
    assert((rs * rd + net - 1) / net <= rd) by (nonlinear_arith)
        requires
            rs * rd <= net * rd,
            0 < net,
    ;
    assert((rs * rd + net - 1) / net >= 1) by (nonlinear_arith)
        requires
            rs * rd >= 1,
            0 < net,
    ;
}

/// Checks that an account holding `claims` of `total` on a pool with `reserve` keeps at
/// least `floor` of it.
pub fn check_pool_share(
    reserve: Balance,
    claims: Balance,
    total: Balance,
    floor: Result<Balance, ArithmeticError>,
) -> (r: Result<(), Error>)
    ensures
        r == share_check(reserve as int, claims as int, total as int, floor),
{
    let owned = match arith::mul_div_floor(reserve, claims, total) {
        Ok(v) => v,
        Err(e) => return Err(Error::Arithmetic(e)),
    };
    let m = match floor {
        Ok(m) => m,
        Err(e) => return Err(Error::Arithmetic(e)),
    };
    if owned >= m {
        Ok(())
    } else {
        Err(Error::InsufficientPoolAmount)
    }
}

} // verus!
