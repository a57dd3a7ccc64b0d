use dex_pool::constants::{MAX_SQRT_RATIO, MIN_SQRT_RATIO, Q96};
use dex_pool::error::PoolError;
use dex_pool::periphery::{
    check_deadline, check_minimums, default_limit, exact_input_amount_out,
    exact_output_amount_in, swap_direction, CollectParams, DecreaseLiquidityParams,
    DexPositionManager, DexQuoter, DexRouter, ExactInputSingleParams, ExactOutputSingleParams,
    IncreaseLiquidityParams, MintParams, PathElement, PeripheryError, QuoteResult,
};
use dex_pool::pool::DexPool;
use dex_pool::swap::{apply_swap, commit_swap, compute_swap};
use dex_pool::types::{Address, PoolState};

fn address(n: u128) -> Address {
    Address { contract: true, hi: 0, lo: n }
}

fn funded_pool() -> DexPool {
    let owner = address(10);
    let mut pool = DexPool::new();
    pool.initialize(address(1), address(2), address(3), 3000, 60, Q96).unwrap();
    pool.mint(&owner, &owner, -600, 600, 1_000_000_000_000_000).unwrap();
    pool
}

fn input_params(amount_in: i128, amount_out_minimum: i128, deadline: u64) -> ExactInputSingleParams {
    ExactInputSingleParams {
        token_in: address(2),
        token_out: address(3),
        fee: 3000,
        recipient: address(20),
        deadline,
        amount_in,
        amount_out_minimum,
        sqrt_price_limit_x96: 0,
    }
}

#[test]
fn deadline_and_direction() {
    assert_eq!(check_deadline(100, 100), Ok(()));
    assert_eq!(check_deadline(99, 100), Ok(()));
    assert_eq!(check_deadline(101, 100), Err(PeripheryError::Expired));
    assert!(swap_direction(&address(2), &address(3)));
    assert!(!swap_direction(&address(3), &address(2)));
    assert!(!swap_direction(&address(3), &address(3)));
    // accounts come before contracts, whatever their keys
    let account = Address { contract: false, hi: u128::MAX, lo: u128::MAX };
    assert!(swap_direction(&account, &address(0)));
    assert!(swap_direction(&Address { contract: true, hi: 1, lo: 0 }, &Address { contract: true, hi: 2, lo: 0 }));
    assert!(!swap_direction(&Address { contract: true, hi: 2, lo: 0 }, &Address { contract: true, hi: 1, lo: 9 }));
    assert_eq!(default_limit(true, 0), MIN_SQRT_RATIO + 1);
    assert_eq!(default_limit(false, 0), MAX_SQRT_RATIO - 1);
    assert_eq!(default_limit(true, 5), 5);
}

#[test]
fn slippage_bounds() {
    assert_eq!(exact_input_amount_out(true, 100, -95, 95), Ok(95));
    assert_eq!(exact_input_amount_out(true, 100, -95, 96), Err(PeripheryError::InsufficientOutput));
    assert_eq!(exact_input_amount_out(false, -95, 100, 95), Ok(95));
    assert_eq!(exact_input_amount_out(false, i128::MIN, 100, 0), Err(PeripheryError::NumericOverflow));
    assert_eq!(exact_output_amount_in(true, 100, -95, 100), Ok(100));
    assert_eq!(exact_output_amount_in(true, 100, -95, 99), Err(PeripheryError::ExcessiveInput));
    assert_eq!(exact_output_amount_in(false, -95, 101, 101), Ok(101));
    assert_eq!(check_minimums(5, 7, 5, 7), Ok((5, 7)));
    assert_eq!(check_minimums(5, 7, 6, 7), Err(PeripheryError::SlippageCheckFailed));
    assert_eq!(check_minimums(5, 7, 5, 8), Err(PeripheryError::SlippageCheckFailed));
    assert_eq!(check_minimums(u128::MAX, 7, 0, 0), Err(PeripheryError::NumericOverflow));
}

#[test]
fn routed_swap_of_an_exact_input() {
    let mut pool = funded_pool();
    assert_eq!(DexRouter::exact_input_single(&mut pool, &input_params(1_000_000_000, 0, 50), 50), Ok(996999005));
    assert_eq!(pool.sqrt_price_x96(), Ok(79228083523865064300074843162));
    assert_eq!(pool.tick(), Ok(-1));
}

#[test]
fn routed_swap_that_fails_leaves_the_pool_as_it_was() {
    let mut pool = funded_pool();
    let before = pool.get_state().unwrap();
    assert_eq!(
        DexRouter::exact_input_single(&mut pool, &input_params(1_000_000_000, 0, 50), 51),
        Err(PeripheryError::Expired)
    );
    assert_eq!(
        DexRouter::exact_input_single(&mut pool, &input_params(1_000_000_000, 996999006, 50), 50),
        Err(PeripheryError::InsufficientOutput)
    );
    assert_eq!(
        DexRouter::exact_input_single(&mut pool, &input_params(0, 0, 50), 50),
        Err(PeripheryError::Pool(PoolError::ZeroAmount))
    );
    let output = ExactOutputSingleParams {
        token_in: address(3),
        token_out: address(2),
        fee: 3000,
        recipient: address(20),
        deadline: 50,
        amount_out: 1_000_000_000,
        amount_in_maximum: 1003010031,
        sqrt_price_limit_x96: 0,
    };
    assert_eq!(DexRouter::exact_output_single(&mut pool, &output, 50), Err(PeripheryError::ExcessiveInput));
    assert_eq!(
        DexRouter::exact_output_single(&mut pool, &ExactOutputSingleParams { amount_out: i128::MIN, ..output }, 50),
        Err(PeripheryError::NumericOverflow)
    );
    assert_eq!(pool.get_state().unwrap(), before);
    assert_eq!(
        DexRouter::exact_output_single(&mut pool, &ExactOutputSingleParams { amount_in_maximum: 1003010032, ..output }, 50),
        Ok(1003010032)
    );
    assert_eq!(pool.sqrt_price_x96(), Ok(79228241742506080099624049961));
}

#[test]
fn quote_is_what_the_swap_gives() {
    let mut pool = funded_pool();
    let quote = DexQuoter::quote_exact_input_single(&pool, true, 1_000_000_000, 0).unwrap();
    assert_eq!(
        quote,
        QuoteResult { amount_out: 996999005, sqrt_price_after_x96: 79228083523865064300074843162, tick_after: -1 }
    );
    // the quote changed nothing
    assert_eq!(pool.sqrt_price_x96(), Ok(Q96));
    let (amount0, amount1) = pool.swap(true, 1_000_000_000, 0).unwrap();
    assert_eq!((amount0, -amount1), (1_000_000_000, quote.amount_out));
    assert_eq!(pool.sqrt_price_x96(), Ok(quote.sqrt_price_after_x96));

    let other = funded_pool();
    assert_eq!(
        DexQuoter::quote_exact_output_single(&other, false, 1_000_000_000, 0),
        Ok(QuoteResult { amount_out: 1003010032, sqrt_price_after_x96: 79228241742506080099624049961, tick_after: 0 })
    );
    assert_eq!(DexQuoter::quote_exact_output_single(&other, false, i128::MIN, 0), Err(PoolError::NumericOverflow));
    assert_eq!(DexQuoter::quote_exact_input_single(&other, true, 0, 0), Err(PoolError::ZeroAmount));
    assert_eq!(DexQuoter::quote_exact_input_single(&DexPool::new(), true, 1, 0), Err(PoolError::NotInitialized));
}

#[test]
fn quote_across_initialized_ticks() {
    let owner = address(10);
    let mut pool = DexPool::new();
    pool.initialize(address(1), address(2), address(3), 3000, 60, Q96).unwrap();
    pool.mint(&owner, &owner, -120, 120, 1_000_000_000_000).unwrap();
    pool.mint(&owner, &owner, -600, 600, 1_000_000_000_000).unwrap();
    let quote = DexQuoter::quote_exact_input_single(&pool, true, 30_000_000_000, 0).unwrap();
    assert_eq!(
        quote,
        QuoteResult { amount_out: 29316483543, sqrt_price_after_x96: 77379393483152693428775039339, tick_after: -473 }
    );
    assert!(quote.tick_after < -120);
    assert_eq!(pool.swap(true, 30_000_000_000, 0), Ok((30000000000, -29316483543)));
    assert_eq!(pool.liquidity(), Ok(1000000000000));
}

#[test]
fn one_step_of_a_swap_as_an_estimate() {
    let state = PoolState {
        liquidity: 1_000_000_000_000_000,
        ..PoolState::new(Q96, 0)
    };
    assert_eq!(
        DexQuoter::simulate_swap(&state, 3000, 1_000_000_000, MIN_SQRT_RATIO + 1),
        Ok(QuoteResult { amount_out: 996999005, sqrt_price_after_x96: 79228083523865064300074843162, tick_after: -1 })
    );
    assert_eq!(
        DexQuoter::simulate_swap(&state, 3000, -1_000_000_000, MAX_SQRT_RATIO - 1),
        Ok(QuoteResult { amount_out: 1003010032, sqrt_price_after_x96: 79228241742506080099624049961, tick_after: 0 })
    );
    assert_eq!(
        DexQuoter::simulate_swap(&state, 3000, 0, MIN_SQRT_RATIO + 1),
        Ok(QuoteResult { amount_out: 0, sqrt_price_after_x96: Q96, tick_after: 0 })
    );
    assert_eq!(
        DexQuoter::simulate_swap(&state, 3000, 5, Q96),
        Ok(QuoteResult { amount_out: 0, sqrt_price_after_x96: Q96, tick_after: 0 })
    );
    assert_eq!(DexQuoter::simulate_swap(&state, 3000, 5, 0), Err(PoolError::NumericUnderflow));
}

#[test]
fn swap_worked_out_and_then_committed() {
    let mut pool = funded_pool();
    let (computation, crossed) = compute_swap(&pool.storage, true, 1_000_000_000, 0).unwrap();
    assert_eq!((computation.amount0, computation.amount1), (1000000000, -996999005));
    assert_eq!(computation.sqrt_price_x96, 79228083523865064300074843162);
    assert_eq!(computation.ticks_crossed, 0);
    assert!(computation.fee_growth_is_token0);
    assert!(crossed.is_empty());
    assert_eq!(pool.sqrt_price_x96(), Ok(Q96));
    commit_swap(&mut pool.storage, true, 1_000_000_000, 0, &computation, &crossed);
    assert_eq!(pool.sqrt_price_x96(), Ok(79228083523865064300074843162));
    assert_eq!(pool.get_state().unwrap().fee_growth_global_0_x128, 1020847100762815390390123822295);

    let mut other = funded_pool();
    apply_swap(&mut other.storage, &computation, &crossed);
    assert_eq!(other.get_state(), pool.get_state());
}

#[test]
fn bookkeeping_of_a_managed_position() {
    let position = DexPositionManager::new_position(address(50), -60, 60, 1_000);
    assert_eq!((position.pool, position.tick_lower, position.tick_upper), (address(50), -60, 60));
    assert_eq!((position.liquidity, position.tokens_owed_0, position.tokens_owed_1), (1_000, 0, 0));
    assert_eq!(DexPositionManager::burn(&position), Err(PeripheryError::PositionHasLiquidity));
    let more = DexPositionManager::increase_liquidity(&position, 500).unwrap();
    assert_eq!(more.liquidity, 1_500);
    assert_eq!(
        DexPositionManager::increase_liquidity(&more, u128::MAX),
        Err(PeripheryError::NumericOverflow)
    );
    assert_eq!(DexPositionManager::check_decrease(&more, 1_500), Ok(()));
    assert_eq!(DexPositionManager::check_decrease(&more, 1_501), Err(PeripheryError::InsufficientLiquidity));
    assert_eq!(
        DexPositionManager::decrease_liquidity(&more, 1_501, 0, 0),
        Err(PeripheryError::InsufficientLiquidity)
    );
    let less = DexPositionManager::decrease_liquidity(&more, 1_500, 7, 9).unwrap();
    assert_eq!((less.liquidity, less.tokens_owed_0, less.tokens_owed_1), (0, 7, 9));
    assert_eq!(DexPositionManager::burn(&less), Err(PeripheryError::PositionHasUncollectedTokens));
    assert_eq!(
        DexPositionManager::decrease_liquidity(&less, 0, u128::MAX, 0),
        Err(PeripheryError::NumericOverflow)
    );
    let part = DexPositionManager::collect(&less, 3, 100);
    assert_eq!((part.tokens_owed_0, part.tokens_owed_1), (4, 0));
    let none = DexPositionManager::collect(&part, 4, 0);
    assert_eq!(DexPositionManager::burn(&none), Ok(()));
}

#[test]
fn parameters_of_the_periphery() {
    let mint = MintParams {
        token0: address(2),
        token1: address(3),
        fee: 3000,
        tick_lower: -60,
        tick_upper: 60,
        amount0_desired: 1,
        amount1_desired: 2,
        amount0_min: 0,
        amount1_min: 0,
        recipient: address(20),
        deadline: 9,
    };
    let increase = IncreaseLiquidityParams {
        position_id: 1,
        amount0_desired: 1,
        amount1_desired: 2,
        amount0_min: 0,
        amount1_min: 0,
        deadline: 9,
    };
    let decrease = DecreaseLiquidityParams {
        position_id: 1,
        liquidity: 5,
        amount0_min: 0,
        amount1_min: 0,
        deadline: 9,
    };
    let collect = CollectParams { position_id: 1, recipient: address(20), amount0_max: 1, amount1_max: 2 };
    let leg = PathElement { token: address(2), fee: 500 };
    assert_eq!(mint.deadline, increase.deadline);
    assert_eq!(decrease.position_id, collect.position_id);
    assert_eq!(leg, PathElement { token: address(2), fee: 500 });
}

#[test]
fn who_may_act_for_an_owner() {
    let (owner, friend, stranger) = (address(1), address(2), address(3));
    assert!(DexPositionManager::is_approved_or_owner(&owner, &owner, None, false));
    assert!(DexPositionManager::is_approved_or_owner(&friend, &owner, Some(friend), false));
    assert!(DexPositionManager::is_approved_or_owner(&friend, &owner, None, true));
    assert!(!DexPositionManager::is_approved_or_owner(&stranger, &owner, Some(friend), false));
    assert!(!DexPositionManager::is_approved_or_owner(&stranger, &owner, None, false));
}

#[test]
fn removal_from_the_list_of_an_owner() {
    assert_eq!(DexPositionManager::removal_plan(0, 0), None);
    assert_eq!(DexPositionManager::removal_plan(1, 0), Some((None, 0)));
    assert_eq!(DexPositionManager::removal_plan(5, 4), Some((None, 4)));
    assert_eq!(DexPositionManager::removal_plan(5, 1), Some((Some(1), 4)));
    assert_eq!(DexPositionManager::removal_plan(u32::MAX, 0), Some((Some(0), u32::MAX - 1)));
}
