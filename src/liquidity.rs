//! Deposits and withdrawals: how many shares a deposit mints, and what a
//! redemption of shares pays out.
use vstd::prelude::*;

use crate::error::AmmError;
use crate::math::{floor_sqrt, int_sqrt, is_floor_sqrt, lemma_floor_sqrt_exists, lemma_floor_sqrt_is};

verus! {

/// The pool's state as observed before a deposit: the two vault balances and
/// the outstanding share supply.
#[derive(Clone, Copy, Debug, PartialEq, Eq, Structural)]
pub struct AddLiquidity {
    pub reserve_a: u64,
    pub reserve_b: u64,
    pub lp_supply: u64,
}

/// The pool's state as observed before a withdrawal.
#[derive(Clone, Copy, Debug, PartialEq, Eq, Structural)]
pub struct RemoveLiquidity {
    pub reserve_a: u64,
    pub reserve_b: u64,
    pub lp_supply: u64,
}

/// Shares that `amount` of one asset is worth against `reserve` of it, when
/// `supply` shares are outstanding.
pub open spec fn proportional(amount: int, supply: int, reserve: int) -> int {
    amount * supply / reserve
}

/// The outcome of depositing `(amount_a, amount_b)` into a pool with the given
/// reserves and share supply: the number of shares to mint, or the error.
pub open spec fn deposit_outcome(
    reserve_a: u64,
    reserve_b: u64,
    supply: u64,
    amount_a: u64,
    amount_b: u64,
) -> Result<u64, AmmError> {
    if amount_a == 0 || amount_b == 0 {
        Err(AmmError::ZeroAmount)
    } else if supply == 0 {
        Ok(floor_sqrt(amount_a * amount_b) as u64)
    } else if reserve_a == 0 || reserve_b == 0 {
        Err(AmmError::ZeroReserve)
    } else {
        let mint_a = proportional(amount_a as int, supply as int, reserve_a as int);
        let mint_b = proportional(amount_b as int, supply as int, reserve_b as int);
        let m = if mint_a <= mint_b {
            mint_a
        } else {
            mint_b
        };
        if m == 0 {
            Err(AmmError::InsufficientLiquidityProvided)
        } else if m > u64::MAX {
            Err(AmmError::NumericalOverflow)
        } else {
            Ok(m as u64)
        }
    }
}

/// The outcome of redeeming `lp_amount` shares out of `supply` against the
/// given reserves: the amounts of A and B to pay out, or the error.
pub open spec fn withdraw_outcome(
    reserve_a: u64,
    reserve_b: u64,
    supply: u64,
    lp_amount: u64,
) -> Result<(u64, u64), AmmError> {
    if lp_amount == 0 {
        Err(AmmError::ZeroAmount)
    } else if supply < lp_amount {
        Err(AmmError::InsufficientSupply)
    } else {
        Ok(
            (
                proportional(reserve_a as int, lp_amount as int, supply as int) as u64,
                proportional(reserve_b as int, lp_amount as int, supply as int) as u64,
            ),
        )
    }
}

proof fn lemma_u64_product_fits(x: u64, y: u64)
    ensures
        0 <= x * y <= u128::MAX,
{
    assert(0 <= x * y <= u128::MAX) by (nonlinear_arith)
        requires
            x <= u64::MAX,
            y <= u64::MAX,
    ;
}

/// A floor square root of a product of two 64-bit values fits in 64 bits, and
/// is positive when both factors are.
proof fn lemma_sqrt_of_u64_product(x: u64, y: u64, r: int)
    requires
        is_floor_sqrt(x * y, r),
    ensures
        r <= u64::MAX,
        x > 0 && y > 0 ==> r > 0,
{
    lemma_u64_product_fits(x, y);
    assert(r <= u64::MAX) by (nonlinear_arith)
        requires
            0 <= r,
            r * r <= x * y,
            x * y <= u128::MAX,
    ;
    if x > 0 && y > 0 {
        assert(x * y >= 1) by (nonlinear_arith)
            requires
                x > 0,
                y > 0,
        ;
    }
}

/// A share of at most the whole supply is worth at most the whole reserve.
proof fn lemma_proportional_bounded(reserve: u64, part: u64, whole: u64)
    requires
        0 < whole,
        part <= whole,
    ensures
        0 <= proportional(reserve as int, part as int, whole as int) <= reserve,
{
    assert(0 <= (reserve as int) * (part as int) <= (reserve as int) * (whole as int))
        by (nonlinear_arith)
        requires
            part <= whole,
    ;
    vstd::arithmetic::div_mod::lemma_div_is_ordered(
        (reserve as int) * (part as int),
        (reserve as int) * (whole as int),
        whole as int,
    );
    vstd::arithmetic::div_mod::lemma_div_by_multiple(reserve as int, whole as int);
    vstd::arithmetic::div_mod::lemma_div_pos_is_pos((reserve as int) * (part as int), whole as int);
}

/// The number of shares to mint for a deposit of `amount_a` and `amount_b`.
/// With no shares outstanding the depositor sets the price and receives the
/// floor square root of the product of the amounts; otherwise the smaller of
/// the two proportional claims, any excess of the other asset staying in the
/// pool.
pub fn add_liquidity(ctx: &AddLiquidity, amount_a: u64, amount_b: u64) -> (r: Result<
    u64,
    AmmError,
>)
    ensures
        r == deposit_outcome(ctx.reserve_a, ctx.reserve_b, ctx.lp_supply, amount_a, amount_b),
        amount_a == 0 || amount_b == 0 ==> r == Err::<u64, AmmError>(AmmError::ZeroAmount),
        amount_a > 0 && amount_b > 0 && ctx.lp_supply == 0 ==> (r matches Ok(s) && s > 0
            && is_floor_sqrt(amount_a * amount_b, s as int)),
{
    if amount_a == 0 || amount_b == 0 {
        return Err(AmmError::ZeroAmount);
    }
    if ctx.lp_supply == 0 {
        proof {
            lemma_u64_product_fits(amount_a, amount_b);
        }
        let product: u128 = (amount_a as u128) * (amount_b as u128);
        let root = int_sqrt(product);
        proof {
            lemma_sqrt_of_u64_product(amount_a, amount_b, root as int);
        }
        return Ok(root as u64);
    }
    if ctx.reserve_a == 0 || ctx.reserve_b == 0 {
        return Err(AmmError::ZeroReserve);
    }
    let supply = ctx.lp_supply as u128;
    proof {
        lemma_u64_product_fits(amount_a, ctx.lp_supply);
        lemma_u64_product_fits(amount_b, ctx.lp_supply);
    }
    let mint_a: u128 = (amount_a as u128) * supply / (ctx.reserve_a as u128);
    let mint_b: u128 = (amount_b as u128) * supply / (ctx.reserve_b as u128);
    let least: u128 = if mint_a <= mint_b {
        mint_a
    } else {
        mint_b
    };
    if least == 0 {
        return Err(AmmError::InsufficientLiquidityProvided);
    }
    if least > u64::MAX as u128 {
        return Err(AmmError::NumericalOverflow);
    }
    Ok(least as u64)
}

/// The amounts of A and B that redeeming `lp_amount` shares pays out: each
/// reserve's share, rounded down.
pub fn remove_liquidity(ctx: &RemoveLiquidity, lp_amount: u64) -> (r: Result<(u64, u64), AmmError>)
    ensures
        r == withdraw_outcome(ctx.reserve_a, ctx.reserve_b, ctx.lp_supply, lp_amount),
        lp_amount > ctx.lp_supply ==> r == Err::<(u64, u64), AmmError>(
            AmmError::InsufficientSupply,
        ),
        r matches Ok((a, b)) ==> a <= ctx.reserve_a && b <= ctx.reserve_b,
{
    if lp_amount == 0 {
        return Err(AmmError::ZeroAmount);
    }
    if ctx.lp_supply < lp_amount {
        return Err(AmmError::InsufficientSupply);
    }
    let supply = ctx.lp_supply as u128;
    let lp = lp_amount as u128;
    proof {
        lemma_u64_product_fits(ctx.reserve_a, lp_amount);
        lemma_u64_product_fits(ctx.reserve_b, lp_amount);
        lemma_proportional_bounded(ctx.reserve_a, lp_amount, ctx.lp_supply);
        lemma_proportional_bounded(ctx.reserve_b, lp_amount, ctx.lp_supply);
    }
    let amount_a: u128 = (ctx.reserve_a as u128) * lp / supply;
    let amount_b: u128 = (ctx.reserve_b as u128) * lp / supply;
    Ok((amount_a as u64, amount_b as u64))
}

/// Depositing `(amount_a, amount_b)` into a pool with no shares outstanding and
/// then redeeming every share minted pays out exactly `(amount_a, amount_b)`.
pub proof fn lemma_deposit_withdraw_round_trip(amount_a: u64, amount_b: u64, shares: u64)
    requires
        deposit_outcome(0, 0, 0, amount_a, amount_b) == Ok::<u64, AmmError>(shares),
    ensures
        withdraw_outcome(amount_a, amount_b, shares, shares) == Ok::<(u64, u64), AmmError>(
            (amount_a, amount_b),
        ),
{
    lemma_floor_sqrt_exists(amount_a * amount_b);
    lemma_floor_sqrt_is(amount_a * amount_b, floor_sqrt(amount_a * amount_b));
    lemma_sqrt_of_u64_product(amount_a, amount_b, floor_sqrt(amount_a * amount_b));
    vstd::arithmetic::div_mod::lemma_div_by_multiple(amount_a as int, shares as int);
    vstd::arithmetic::div_mod::lemma_div_by_multiple(amount_b as int, shares as int);
}

} // verus!
