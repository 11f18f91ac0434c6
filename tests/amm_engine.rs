use amm::error::AmmError;
use amm::liquidity::{add_liquidity, remove_liquidity, AddLiquidity, RemoveLiquidity};
use amm::math::int_sqrt;
use amm::pool::{create_pool, Address, CreatePool, Pool};
use amm::swap::{swap, Swap};

fn addr(tag: u8) -> Address {
    Address::new([tag; 32])
}

fn pool_with_fee(fee_numerator: u64, fee_denominator: u64) -> Pool {
    let ctx = CreatePool {
        payer: addr(1),
        token_a_mint: addr(2),
        token_b_mint: addr(3),
        lp_mint: addr(4),
        vault_a: addr(5),
        vault_b: addr(6),
        allowed_swapper: addr(7),
        bump: 254,
    };
    create_pool(&ctx, fee_numerator, fee_denominator).unwrap()
}

fn swap_ctx(reserve_a: u64, reserve_b: u64, fee_numerator: u64, fee_denominator: u64) -> Swap {
    Swap {
        user: addr(7),
        pool: pool_with_fee(fee_numerator, fee_denominator),
        reserve_a,
        reserve_b,
    }
}

#[test]
fn bootstrap_deposit_mints_floor_sqrt() {
    let ctx = AddLiquidity { reserve_a: 0, reserve_b: 0, lp_supply: 0 };
    assert_eq!(add_liquidity(&ctx, 100, 400), Ok(200));
}

#[test]
fn proportional_deposit_mints_minimum() {
    let ctx = AddLiquidity { reserve_a: 200, reserve_b: 800, lp_supply: 200 };
    assert_eq!(add_liquidity(&ctx, 50, 200), Ok(50));
}

#[test]
fn imbalanced_deposit_credits_limiting_asset() {
    let ctx = AddLiquidity { reserve_a: 200, reserve_b: 800, lp_supply: 200 };
    assert_eq!(add_liquidity(&ctx, 50, 100), Ok(25));
}

#[test]
fn swap_with_fee() {
    let ctx = swap_ctx(250, 1000, 3, 1000);
    assert_eq!(swap(&ctx, 25, 0, true), Ok(88));
}

#[test]
fn swap_b_to_a() {
    let ctx = swap_ctx(1000, 250, 3, 1000);
    assert_eq!(swap(&ctx, 25, 0, false), Ok(88));
}

#[test]
fn swap_slippage_rejected() {
    let ctx = swap_ctx(250, 1000, 3, 1000);
    assert_eq!(swap(&ctx, 25, 90, true), Err(AmmError::SlippageExceeded));
}

#[test]
fn swap_exact_minimum_accepted() {
    let ctx = swap_ctx(250, 1000, 3, 1000);
    assert_eq!(swap(&ctx, 25, 88, true), Ok(88));
}

#[test]
fn withdrawal_pays_proportional_share() {
    let ctx = RemoveLiquidity { reserve_a: 250, reserve_b: 1000, lp_supply: 250 };
    assert_eq!(remove_liquidity(&ctx, 25), Ok((25, 100)));
}

#[test]
fn withdrawal_rounds_down() {
    let ctx = RemoveLiquidity { reserve_a: 10, reserve_b: 7, lp_supply: 3 };
    assert_eq!(remove_liquidity(&ctx, 1), Ok((3, 2)));
}

#[test]
fn round_trip_returns_deposit() {
    for &(a, b) in &[(100u64, 400u64), (7, 13), (1, 1), (u64::MAX, u64::MAX), (3, u64::MAX)] {
        let empty = AddLiquidity { reserve_a: 0, reserve_b: 0, lp_supply: 0 };
        let shares = add_liquidity(&empty, a, b).unwrap();
        let ctx = RemoveLiquidity { reserve_a: a, reserve_b: b, lp_supply: shares };
        assert_eq!(remove_liquidity(&ctx, shares), Ok((a, b)));
    }
}

#[test]
fn swap_is_repeatable() {
    let ctx = swap_ctx(12345, 67890, 3, 1000);
    let first = swap(&ctx, 999, 1, true);
    let second = swap(&ctx, 999, 1, true);
    assert_eq!(first, second);
    assert!(first.is_ok());
}

#[test]
fn zero_fee_swap_keeps_product_when_divisible() {
    // 100 * 300 is divisible by 100 + 50
    let ctx = swap_ctx(100, 300, 0, 1);
    let out = swap(&ctx, 50, 0, true).unwrap();
    assert_eq!(out, 100);
    assert!((100u128 + 50) * (300 - out as u128) >= 100 * 300);
}

#[test]
fn zero_fee_swap_rounds_output_up_when_not_divisible() {
    // 2 * 3 is not divisible by 2 + 2: the re-solved reserve is rounded down
    let ctx = swap_ctx(2, 3, 0, 1);
    let out = swap(&ctx, 2, 0, true).unwrap();
    assert_eq!(out, 2);
    assert!((2u128 + 2) * (3 - out as u128) < 2 * 3);
}

#[test]
fn deposit_zero_amount_rejected() {
    let ctx = AddLiquidity { reserve_a: 200, reserve_b: 800, lp_supply: 200 };
    assert_eq!(add_liquidity(&ctx, 0, 10), Err(AmmError::ZeroAmount));
    assert_eq!(add_liquidity(&ctx, 10, 0), Err(AmmError::ZeroAmount));
    let empty = AddLiquidity { reserve_a: 0, reserve_b: 0, lp_supply: 0 };
    assert_eq!(add_liquidity(&empty, 0, 0), Err(AmmError::ZeroAmount));
}

#[test]
fn withdraw_more_than_supply_rejected() {
    let ctx = RemoveLiquidity { reserve_a: 250, reserve_b: 1000, lp_supply: 250 };
    assert_eq!(remove_liquidity(&ctx, 251), Err(AmmError::InsufficientSupply));
    assert_eq!(remove_liquidity(&ctx, u64::MAX), Err(AmmError::InsufficientSupply));
}

#[test]
fn withdraw_zero_rejected() {
    let ctx = RemoveLiquidity { reserve_a: 250, reserve_b: 1000, lp_supply: 250 };
    assert_eq!(remove_liquidity(&ctx, 0), Err(AmmError::ZeroAmount));
}

#[test]
fn deposit_against_empty_reserve_rejected() {
    let ctx = AddLiquidity { reserve_a: 0, reserve_b: 800, lp_supply: 200 };
    assert_eq!(add_liquidity(&ctx, 50, 200), Err(AmmError::ZeroReserve));
}

#[test]
fn deposit_too_small_rejected() {
    let ctx = AddLiquidity { reserve_a: 1000, reserve_b: 1000, lp_supply: 10 };
    assert_eq!(add_liquidity(&ctx, 50, 50), Err(AmmError::InsufficientLiquidityProvided));
}

#[test]
fn deposit_mint_too_large_rejected() {
    let ctx = AddLiquidity { reserve_a: 1, reserve_b: 1, lp_supply: u64::MAX };
    assert_eq!(add_liquidity(&ctx, 2, 2), Err(AmmError::NumericalOverflow));
}

#[test]
fn swap_zero_amount_rejected() {
    let ctx = swap_ctx(250, 1000, 3, 1000);
    assert_eq!(swap(&ctx, 0, 0, true), Err(AmmError::ZeroAmount));
}

#[test]
fn swap_by_other_caller_rejected() {
    let mut ctx = swap_ctx(250, 1000, 3, 1000);
    ctx.user = addr(9);
    assert_eq!(swap(&ctx, 25, 0, true), Err(AmmError::Unauthorized));
}

#[test]
fn swap_tiny_output_rejected() {
    let ctx = swap_ctx(1000, 1000, 3, 1000);
    assert_eq!(swap(&ctx, 1, 0, true), Err(AmmError::InsufficientOutputAmount));
}

#[test]
fn swap_with_invalid_fee_overflows() {
    let mut ctx = swap_ctx(250, 1000, 3, 1000);
    ctx.pool.fee_numerator = 2000;
    assert_eq!(swap(&ctx, 25, 0, true), Err(AmmError::NumericalOverflow));
    ctx.pool.fee_denominator = 0;
    ctx.pool.fee_numerator = 0;
    assert_eq!(swap(&ctx, 25, 0, true), Err(AmmError::NumericalOverflow));
}

#[test]
fn swap_into_empty_pool_overflows() {
    let ctx = swap_ctx(0, 0, 999, 1000);
    assert_eq!(swap(&ctx, 1, 0, true), Err(AmmError::NumericalOverflow));
}

#[test]
fn create_pool_validates_fee() {
    let ctx = CreatePool {
        payer: addr(1),
        token_a_mint: addr(2),
        token_b_mint: addr(3),
        lp_mint: addr(4),
        vault_a: addr(5),
        vault_b: addr(6),
        allowed_swapper: addr(7),
        bump: 1,
    };
    assert_eq!(create_pool(&ctx, 0, 0), Err(AmmError::InvalidFeeDenominator));
    assert_eq!(create_pool(&ctx, 5, 5), Err(AmmError::InvalidFee));
    let pool = create_pool(&ctx, 3, 1000).unwrap();
    assert_eq!(pool.authority, addr(1));
    assert_eq!(pool.token_a_mint, addr(2));
    assert_eq!(pool.token_b_mint, addr(3));
    assert_eq!(pool.lp_mint, addr(4));
    assert_eq!(pool.vault_a, addr(5));
    assert_eq!(pool.vault_b, addr(6));
    assert_eq!(pool.allowed_swapper, addr(7));
    assert_eq!(pool.fee_numerator, 3);
    assert_eq!(pool.fee_denominator, 1000);
    assert_eq!(pool.bump, 1);
}

#[test]
fn int_sqrt_floors() {
    assert_eq!(int_sqrt(0), 0);
    assert_eq!(int_sqrt(1), 1);
    assert_eq!(int_sqrt(2), 1);
    assert_eq!(int_sqrt(3), 1);
    assert_eq!(int_sqrt(4), 2);
    assert_eq!(int_sqrt(40000), 200);
    assert_eq!(int_sqrt(40399), 200);
    assert_eq!(int_sqrt(40401), 201);
    assert_eq!(int_sqrt(u128::MAX), u64::MAX as u128);
}

#[test]
fn address_comparison() {
    assert!(addr(3).same(&addr(3)));
    assert!(!addr(3).same(&addr(4)));
    let mut bytes = [0u8; 32];
    bytes[31] = 1;
    assert!(!Address::new(bytes).same(&Address::new([0u8; 32])));
}

#[test]
fn error_messages() {
    assert_eq!(AmmError::SlippageExceeded.message(), "Slippage exceeded");
    assert_eq!(AmmError::InvalidFeeDenominator.message(), "Invalid fee denominator");
}
