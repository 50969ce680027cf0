//! Checked balance arithmetic and wide multiply-divide with explicit rounding.
use vstd::prelude::*;

verus! {

/// A quantity of one asset, or a number of liquidity claims.
pub type Balance = u64;

/// The double-width type that holds the product of two balances.
pub type WideBalance = u128;

/// Parts per million in one whole: the denominator of an exchange fee.
pub const PARTS_PER_MILLION: u32 = 1_000_000;

#[derive(Clone, Copy, Debug, PartialEq, Eq, Structural)]
pub enum ArithmeticError {
    Overflow,
    Underflow,
    DivisionByZero,
}

/// `floor(a * b / c)` over the integers.
pub open spec fn floor_mul_div(a: int, b: int, c: int) -> int {
    (a * b) / c
}

/// `ceil(a * b / c)` over the integers, for a positive `c`.
pub open spec fn ceil_mul_div(a: int, b: int, c: int) -> int {
    (a * b + c - 1) / c
}

/// The outcome of a multiply-divide whose exact quotient is `q`.
pub open spec fn narrowed(c: int, q: int) -> Result<Balance, ArithmeticError> {
    if c == 0 {
        Err(ArithmeticError::DivisionByZero)
    } else if q > u64::MAX {
        Err(ArithmeticError::Overflow)
    } else {
        Ok(q as u64)
    }
}

/// `floor(a * b / c)` narrowed to a balance.
pub open spec fn floor_checked(a: int, b: int, c: int) -> Result<Balance, ArithmeticError> {
    narrowed(c, if c == 0 { 0 } else { floor_mul_div(a, b, c) })
}

/// `ceil(a * b / c)` narrowed to a balance.
pub open spec fn ceil_checked(a: int, b: int, c: int) -> Result<Balance, ArithmeticError> {
    narrowed(c, if c == 0 { 0 } else { ceil_mul_div(a, b, c) })
}

/// Checked addition of two balances.
pub fn add(a: Balance, b: Balance) -> (r: Result<Balance, ArithmeticError>)
    ensures
        a + b <= u64::MAX ==> r == Ok::<Balance, ArithmeticError>((a + b) as u64),
        a + b > u64::MAX ==> r == Err::<Balance, ArithmeticError>(ArithmeticError::Overflow),
{
    match a.checked_add(b) {
        Some(v) => Ok(v),
        None => Err(ArithmeticError::Overflow),
    }
}

/// Checked subtraction of two balances.
pub fn sub(a: Balance, b: Balance) -> (r: Result<Balance, ArithmeticError>)
    ensures
        b <= a ==> r == Ok::<Balance, ArithmeticError>((a - b) as u64),
        b > a ==> r == Err::<Balance, ArithmeticError>(ArithmeticError::Underflow),
{
    match a.checked_sub(b) {
        Some(v) => Ok(v),
        None => Err(ArithmeticError::Underflow),
    }
}

/// The exact product of two balances, in the double-width type; it always fits.
pub fn mul_wide(a: Balance, b: Balance) -> (r: WideBalance)
    ensures
        r == a * b,
{
    proof {
        lemma_wide_product(a, b);
    }
    (a as u128) * (b as u128)
}

/// The product of two balances is below `2^128 - 2^64`, so adding any balance to it still fits.
pub proof fn lemma_wide_product(a: Balance, b: Balance)
    ensures
        0 <= a * b,
        a * b + u64::MAX <= u128::MAX,
{
    assert(0 <= a * b && a * b <= u64::MAX * u64::MAX) by (nonlinear_arith)
        requires
            a <= u64::MAX,
            b <= u64::MAX,
    ;
}

/// `floor(a * b / c)`, computed on the wide product.
pub fn mul_div_floor(a: Balance, b: Balance, c: Balance) -> (r: Result<Balance, ArithmeticError>)
    ensures
        r == floor_checked(a as int, b as int, c as int),
{
    if c == 0 {
        return Err(ArithmeticError::DivisionByZero);
    }
    let q: u128 = mul_wide(a, b) / (c as u128);
    if q > u64::MAX as u128 {
        Err(ArithmeticError::Overflow)
    } else {
        Ok(q as u64)
    }
}

/// `ceil(a * b / c)`, computed on the wide product.
pub fn mul_div_ceil(a: Balance, b: Balance, c: Balance) -> (r: Result<Balance, ArithmeticError>)
    ensures
        r == ceil_checked(a as int, b as int, c as int),
{
    if c == 0 {
        return Err(ArithmeticError::DivisionByZero);
    }
    proof {
        lemma_wide_product(a, b);
    }
    let biased: u128 = mul_wide(a, b) + (c as u128 - 1);
    let q: u128 = biased / (c as u128);
    if q > u64::MAX as u128 {
        Err(ArithmeticError::Overflow)
    } else {
        Ok(q as u64)
    }
}

/// The part of `amount` that a fee of `parts` per million takes, rounded up.
pub open spec fn fee_of(parts: int, amount: int) -> int {
    ceil_mul_div(amount, parts, PARTS_PER_MILLION as int)
}

/// `ceil(amount * parts / 1_000_000)`: a per-million fraction of a balance, rounded up.
pub fn per_million_ceil(parts: u32, amount: Balance) -> (r: Balance)
    requires
        parts <= PARTS_PER_MILLION,
    ensures
        r == fee_of(parts as int, amount as int),
        r <= amount,
{
    let m: u128 = PARTS_PER_MILLION as u128;
    proof {
        assert(amount * parts <= amount * 1_000_000) by (nonlinear_arith)
            requires
                parts <= 1_000_000,
        ;
        assert((amount * parts + 999_999) / 1_000_000 <= amount) by (nonlinear_arith)
            requires
                amount * parts <= amount * 1_000_000,
                0 <= amount * parts,
        ;
    }
    let q: u128 = ((amount as u128) * (parts as u128) + (m - 1)) / m;
    q as u64
}

} // verus!
