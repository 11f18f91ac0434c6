//! The fee-bearing constant-product swap.
use vstd::prelude::*;

use crate::error::AmmError;
use crate::pool::{Address, Pool};

verus! {

/// What a swap is given: the caller, the pool, and the two vault balances as
/// observed before the swap.
#[derive(Clone, Copy, Debug, PartialEq, Eq)]
pub struct Swap {
    pub user: Address,
    pub pool: Pool,
    pub reserve_a: u64,
    pub reserve_b: u64,
}

/// The input that counts toward the invariant once the fee
/// `fee_numerator / fee_denominator` is deducted, rounded down.
pub open spec fn amount_after_fee(amount_in: int, fee_numerator: int, fee_denominator: int) -> int {
    amount_in * (fee_denominator - fee_numerator) / fee_denominator
}

/// What leaves the output reserve when `input` is added to the input reserve
/// and the output reserve is re-solved, rounded down, from the product of the
/// two reserves.
pub open spec fn constant_product_out(reserve_in: int, reserve_out: int, input: int) -> int {
    reserve_out - reserve_in * reserve_out / (reserve_in + input)
}

/// The outcome of swapping `amount_in` against the reserves with the given
/// fee, from A to B when `a_to_b` holds and from B to A otherwise: the amount
/// paid out, or the error.
pub open spec fn swap_outcome(
    reserve_a: u64,
    reserve_b: u64,
    fee_numerator: u64,
    fee_denominator: u64,
    amount_in: u64,
    minimum_amount_out: u64,
    a_to_b: bool,
) -> Result<u64, AmmError> {
    let reserve_in: int = if a_to_b {
        reserve_a as int
    } else {
        reserve_b as int
    };
    let reserve_out: int = if a_to_b {
        reserve_b as int
    } else {
        reserve_a as int
    };
    if amount_in == 0 {
        Err(AmmError::ZeroAmount)
    } else if fee_denominator == 0 || fee_numerator > fee_denominator {
        Err(AmmError::NumericalOverflow)
    } else {
        let input = amount_after_fee(amount_in as int, fee_numerator as int, fee_denominator as int);
        if reserve_in + input == 0 {
            Err(AmmError::NumericalOverflow)
        } else {
            let out = constant_product_out(reserve_in, reserve_out, input);
            if out <= 0 {
                Err(AmmError::InsufficientOutputAmount)
            } else if out < minimum_amount_out {
                Err(AmmError::SlippageExceeded)
            } else {
                Ok(out as u64)
            }
        }
    }
}

/// The outcome of a swap request: zero input is refused first, then any caller
/// but the pool's designated swapper, then the computation decides.
pub open spec fn swap_result(ctx: Swap, amount_in: u64, minimum_amount_out: u64, a_to_b: bool) -> Result<
    u64,
    AmmError,
> {
    if amount_in == 0 {
        Err(AmmError::ZeroAmount)
    } else if ctx.user@ != ctx.pool.allowed_swapper@ {
        Err(AmmError::Unauthorized)
    } else {
        swap_outcome(
            ctx.reserve_a,
            ctx.reserve_b,
            ctx.pool.fee_numerator,
            ctx.pool.fee_denominator,
            amount_in,
            minimum_amount_out,
            a_to_b,
        )
    }
}

/// The re-solved output reserve never exceeds the old one.
proof fn lemma_new_reserve_bounded(reserve_in: u64, reserve_out: u64, input: int)
    requires
        0 <= input,
        0 < reserve_in + input,
    ensures
        0 <= (reserve_in as int) * (reserve_out as int) / (reserve_in + input) <= reserve_out,
        (reserve_in as int) * (reserve_out as int) <= u128::MAX,
{
    let k = (reserve_in as int) * (reserve_out as int);
    let d = reserve_in + input;
    assert(0 <= k <= d * (reserve_out as int)) by (nonlinear_arith)
        requires
            k == (reserve_in as int) * (reserve_out as int),
            reserve_in <= d,
    ;
    assert(k <= u128::MAX) by (nonlinear_arith)
        requires
            k == (reserve_in as int) * (reserve_out as int),
            reserve_in <= u64::MAX,
            reserve_out <= u64::MAX,
    ;
    vstd::arithmetic::div_mod::lemma_div_is_ordered(k, d * (reserve_out as int), d);
    vstd::arithmetic::div_mod::lemma_div_by_multiple(reserve_out as int, d);
    vstd::arithmetic::mul::lemma_mul_is_commutative(d, reserve_out as int);
    vstd::arithmetic::div_mod::lemma_div_pos_is_pos(k, d);
}

/// The fee never adds to the input.
proof fn lemma_after_fee_bounded(amount_in: u64, fee_numerator: u64, fee_denominator: u64)
    requires
        0 < fee_denominator,
        fee_numerator <= fee_denominator,
    ensures
        0 <= amount_after_fee(amount_in as int, fee_numerator as int, fee_denominator as int)
            <= amount_in,
        (amount_in as int) * (fee_denominator - fee_numerator) <= u128::MAX,
{
    let keep = fee_denominator - fee_numerator;
    let p = (amount_in as int) * keep;
    assert(0 <= p <= (amount_in as int) * (fee_denominator as int) <= u128::MAX)
        by (nonlinear_arith)
        requires
            p == (amount_in as int) * keep,
            0 <= keep <= fee_denominator,
            amount_in <= u64::MAX,
            fee_denominator <= u64::MAX,
    ;
    vstd::arithmetic::div_mod::lemma_div_is_ordered(
        p,
        (amount_in as int) * (fee_denominator as int),
        fee_denominator as int,
    );
    vstd::arithmetic::div_mod::lemma_div_by_multiple(amount_in as int, fee_denominator as int);
    vstd::arithmetic::div_mod::lemma_div_pos_is_pos(p, fee_denominator as int);
}

/// The amount that swapping `amount_in` pays out, provided the caller is the
/// pool's designated swapper and the payout is positive and at least
/// `minimum_amount_out`. The fee is deducted from the input before the
/// constant product is re-solved, so it stays in the input vault.
pub fn swap(ctx: &Swap, amount_in: u64, minimum_amount_out: u64, a_to_b: bool) -> (r: Result<
    u64,
    AmmError,
>)
    ensures
        r == swap_result(*ctx, amount_in, minimum_amount_out, a_to_b),
        r matches Ok(out) ==> 0 < out && minimum_amount_out <= out && out <= (if a_to_b {
            ctx.reserve_b
        } else {
            ctx.reserve_a
        }),
{
    if amount_in == 0 {
        return Err(AmmError::ZeroAmount);
    }
    if !ctx.user.same(&ctx.pool.allowed_swapper) {
        return Err(AmmError::Unauthorized);
    }
    let fee_n = ctx.pool.fee_numerator as u128;
    let fee_d = ctx.pool.fee_denominator as u128;
    if fee_d == 0 || fee_n > fee_d {
        return Err(AmmError::NumericalOverflow);
    }
    proof {
        lemma_after_fee_bounded(amount_in, ctx.pool.fee_numerator, ctx.pool.fee_denominator);
    }
    let after_fee: u128 = (amount_in as u128) * (fee_d - fee_n) / fee_d;
    let (reserve_in, reserve_out) = if a_to_b {
        (ctx.reserve_a, ctx.reserve_b)
    } else {
        (ctx.reserve_b, ctx.reserve_a)
    };
    let new_in: u128 = reserve_in as u128 + after_fee;
    if new_in == 0 {
        return Err(AmmError::NumericalOverflow);
    }
    proof {
        lemma_new_reserve_bounded(reserve_in, reserve_out, after_fee as int);
    }
    let k: u128 = (reserve_in as u128) * (reserve_out as u128);
    let new_out: u128 = k / new_in;
    let amount_out: u128 = reserve_out as u128 - new_out;
    if amount_out == 0 {
        return Err(AmmError::InsufficientOutputAmount);
    }
    if amount_out < minimum_amount_out as u128 {
        return Err(AmmError::SlippageExceeded);
    }
    Ok(amount_out as u64)
}

/// A swap from A to B with no fee, whenever the new input reserve divides the
/// product of the old reserves, leaves that product no smaller than before.
pub proof fn lemma_swap_product_non_decreasing(
    reserve_a: u64,
    reserve_b: u64,
    fee_denominator: u64,
    amount_in: u64,
    minimum_amount_out: u64,
    amount_out: u64,
)
    requires
        reserve_a > 0,
        reserve_b > 0,
        swap_outcome(reserve_a, reserve_b, 0, fee_denominator, amount_in, minimum_amount_out, true)
            == Ok::<u64, AmmError>(amount_out),
        (reserve_a * reserve_b) % ((reserve_a + amount_in) as int) == 0,
    ensures
        (reserve_a + amount_in) * (reserve_b - amount_out) >= reserve_a * reserve_b,
{
    vstd::arithmetic::div_mod::lemma_div_by_multiple(amount_in as int, fee_denominator as int);
    let d = reserve_a + amount_in;
    let k = reserve_a * reserve_b;
    vstd::arithmetic::div_mod::lemma_fundamental_div_mod(k, d as int);
}

/// A swap depends on nothing but the reserves, the fee, the caller's and the
/// designated swapper's identities and the request: computing it twice on the
/// same values gives the same outcome.
pub proof fn lemma_swap_repeatable(
    first: Swap,
    second: Swap,
    amount_in: u64,
    minimum_amount_out: u64,
    a_to_b: bool,
)
    requires
        first.reserve_a == second.reserve_a,
        first.reserve_b == second.reserve_b,
        first.pool.fee_numerator == second.pool.fee_numerator,
        first.pool.fee_denominator == second.pool.fee_denominator,
        first.user@ == second.user@,
        first.pool.allowed_swapper@ == second.pool.allowed_swapper@,
    ensures
        swap_result(first, amount_in, minimum_amount_out, a_to_b) == swap_result(
            second,
            amount_in,
            minimum_amount_out,
            a_to_b,
        ),
{
}

} // verus!
