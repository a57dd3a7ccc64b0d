use dex_pool::constants::{
    MAX_SQRT_RATIO, MAX_TICK, MAX_TICK_CROSSINGS_PER_SWAP, MIN_SQRT_RATIO, MIN_TICK, Q96,
};
use dex_pool::error::PoolError;
use dex_pool::invariants::{
    fee_growth_monotonic, price_in_bounds, swap_amounts_opposite_signs, swap_direction_consistent,
    swap_respects_limit, tick_consistent_with_price,
};
use dex_pool::liquidity::{burn, collect, mint, validate_ticks};
use dex_pool::model::{PoolSnapshot, PositionSnapshot, TickSnapshot};
use dex_pool::pool::DexPool;
use dex_pool::position::{compute_position_update, update_position};
use dex_pool::storage::{
    get_config, get_position, get_state, get_tick_bitmap_word, has_tick, set_config,
    set_position, set_state, PoolStorage,
};
use dex_pool::swap::execute_swap;
use dex_pool::tick_math::{get_sqrt_ratio_at_tick, get_tick_at_sqrt_ratio};
use dex_pool::types::{
    fee_to_tick_spacing, max_liquidity_per_tick, Address, PoolConfig, PoolState, PositionInfo,
    PositionKey,
};

fn address(n: u128) -> Address {
    Address { contract: true, hi: 0, lo: n }
}

fn new_pool(fee: u32, tick_spacing: i32, sqrt_price_x96: u128) -> DexPool {
    let mut pool = DexPool::new();
    pool.initialize(address(1), address(2), address(3), fee, tick_spacing, sqrt_price_x96).unwrap();
    pool
}

fn net_liquidity_of_all_ticks(pool: &DexPool, tick_spacing: i32, from: i32, to: i32) -> i128 {
    let mut sum = 0i128;
    let mut tick = from;
    while tick <= to {
        sum += pool.get_tick(tick).liquidity_net;
        tick += tick_spacing;
    }
    sum
}

#[test]
fn test_initialize_pool() {
    let factory = address(9);
    let (t0, t1) = (address(2), address(3));
    let mut pool = DexPool::new();

    // Initialize pool
    pool.initialize(factory, t0, t1, 3000u32, 60i32, Q96).unwrap();

    // Verify state
    let state = pool.get_state().unwrap();
    assert_eq!(state.sqrt_price_x96, Q96);
    assert_eq!(state.tick, 0);
    assert_eq!(state.liquidity, 0);

    // Verify config
    let config = pool.get_config().unwrap();
    assert_eq!(config.factory, factory);
    assert_eq!(config.token0, t0);
    assert_eq!(config.token1, t1);
    assert_eq!(config.fee, 3000);
    assert_eq!(config.tick_spacing, 60);
}

#[test]
fn test_view_functions() {
    let (t0, t1) = (address(2), address(3));
    let mut pool = DexPool::new();

    let initial_price = Q96 * 2; // Price = 4 (sqrt = 2)
    pool.initialize(address(9), t0, t1, 3000u32, 60i32, initial_price).unwrap();

    // Test individual view functions
    assert_eq!(pool.sqrt_price_x96().unwrap(), initial_price);
    assert!(pool.tick().unwrap() > 0); // Price > 1 means tick > 0
    assert_eq!(pool.liquidity().unwrap(), 0);
    assert_eq!(pool.token0().unwrap(), t0);
    assert_eq!(pool.token1().unwrap(), t1);
    assert_eq!(pool.fee().unwrap(), 3000);
    assert_eq!(pool.tick_spacing().unwrap(), 60);
}

#[test]
fn test_get_tick_uninitialized() {
    let pool = new_pool(3000, 60, Q96);

    // Get uninitialized tick
    let tick_info = pool.get_tick(100);
    assert_eq!(tick_info.liquidity_gross, 0);
    assert_eq!(tick_info.liquidity_net, 0);
    assert!(!tick_info.initialized);
}

#[test]
fn test_get_position_empty() {
    let pool = new_pool(3000, 60, Q96);

    let owner = address(77);
    let position = pool.get_position(owner, -120, 120);
    assert_eq!(position.liquidity, 0);
    assert_eq!(position.tokens_owed_0, 0);
    assert_eq!(position.tokens_owed_1, 0);
}

#[test]
fn test_initialize_different_fee_tiers() {
    // Test 0.05% fee tier (tick spacing 10)
    {
        let pool = new_pool(500, 10, Q96);
        assert_eq!(pool.fee().unwrap(), 500);
        assert_eq!(pool.tick_spacing().unwrap(), 10);
    }

    // Test 0.3% fee tier (tick spacing 60)
    {
        let pool = new_pool(3000, 60, Q96);
        assert_eq!(pool.fee().unwrap(), 3000);
        assert_eq!(pool.tick_spacing().unwrap(), 60);
    }

    // Test 1% fee tier (tick spacing 200)
    {
        let pool = new_pool(10000, 200, Q96);
        assert_eq!(pool.fee().unwrap(), 10000);
        assert_eq!(pool.tick_spacing().unwrap(), 200);
    }
}

#[test]
fn test_initialize_with_different_prices() {
    // Price = 1 (tick = 0)
    {
        let pool = new_pool(3000, 60, Q96);
        let tick = pool.tick().unwrap();
        assert!(tick.abs() <= 1, "Price 1 should give tick ~0");
    }

    // Price > 1 (tick > 0)
    {
        let pool = new_pool(3000, 60, Q96 * 2);
        let tick = pool.tick().unwrap();
        assert!(tick > 0, "Price > 1 should give positive tick");
    }

    // Price < 1 (tick < 0)
    {
        let pool = new_pool(3000, 60, Q96 / 2);
        let tick = pool.tick().unwrap();
        assert!(tick < 0, "Price < 1 should give negative tick");
    }
}

#[test]
fn test_max_liquidity_varies_by_tick_spacing() {
    // Smaller tick spacing = more ticks = less liquidity per tick
    let pool_10 = new_pool(500, 10, Q96);
    let pool_200 = new_pool(10000, 200, Q96);

    let config_10 = pool_10.get_config().unwrap();
    let config_200 = pool_200.get_config().unwrap();

    // Wider tick spacing should allow more liquidity per tick
    assert!(
        config_200.max_liquidity_per_tick > config_10.max_liquidity_per_tick,
        "Wider spacing should allow more liquidity per tick"
    );
}

#[test]
fn initialize_fails() {
    let mut pool = DexPool::new();
    assert_eq!(pool.get_state(), Err(PoolError::NotInitialized));
    assert_eq!(pool.get_config(), Err(PoolError::NotInitialized));
    assert_eq!(pool.swap(true, 1, 0), Err(PoolError::NotInitialized));
    assert_eq!(pool.mint(&address(7), &address(7), -60, 60, 1), Err(PoolError::NotInitialized));
    assert_eq!(pool.burn(&address(7), -60, 60, 1), Err(PoolError::NotInitialized));
    assert_eq!(pool.collect(&address(7), -60, 60, 1, 1), Err(PoolError::NotInitialized));
    assert_eq!(
        pool.initialize(address(1), address(3), address(2), 3000, 60, Q96),
        Err(PoolError::BadTokenOrder)
    );
    assert_eq!(
        pool.initialize(address(1), address(2), address(2), 3000, 60, Q96),
        Err(PoolError::BadTokenOrder)
    );
    assert_eq!(
        pool.initialize(address(1), address(2), address(3), 1_000_000, 60, Q96),
        Err(PoolError::InvalidFee)
    );
    assert_eq!(
        pool.initialize(address(1), address(2), address(3), 3000, 0, Q96),
        Err(PoolError::InvalidTickSpacing)
    );
    assert_eq!(
        pool.initialize(address(1), address(2), address(3), 3000, 16385, Q96),
        Err(PoolError::InvalidTickSpacing)
    );
    assert_eq!(
        pool.initialize(address(1), address(2), address(3), 3000, 60, MIN_SQRT_RATIO),
        Err(PoolError::PriceOutOfRange)
    );
    assert_eq!(
        pool.initialize(address(1), address(2), address(3), 3000, 60, MAX_SQRT_RATIO),
        Err(PoolError::PriceOutOfRange)
    );
    assert_eq!(pool.get_state(), Err(PoolError::NotInitialized));
    assert_eq!(pool.initialize(address(1), address(2), address(3), 999_999, 16384, Q96), Ok(()));
    assert_eq!(
        pool.initialize(address(1), address(2), address(3), 3000, 60, Q96),
        Err(PoolError::AlreadyInitialized)
    );
    assert_eq!(pool.fee(), Ok(999_999));
}

#[test]
fn initialize_at_the_ends_of_the_price_domain() {
    let low = new_pool(3000, 60, MIN_SQRT_RATIO + 1);
    assert_eq!(low.tick(), Ok(MIN_TICK));
    assert!(price_in_bounds(&low.get_state().unwrap()));
    let high = new_pool(3000, 60, MAX_SQRT_RATIO - 1);
    assert_eq!(high.tick(), Ok(MAX_TICK - 1));
    assert!(price_in_bounds(&high.get_state().unwrap()));
}

#[test]
fn max_liquidity_per_tick_exact_values() {
    assert_eq!(max_liquidity_per_tick(60), 23012265295255187899058267899625901);
    assert_eq!(max_liquidity_per_tick(1), 383514844834609487117690504987493);
    assert_eq!(max_liquidity_per_tick(16384), 6186952125835244790243174680577603844);
    assert_eq!(new_pool(500, 10, Q96).get_config().unwrap().max_liquidity_per_tick, 3835161415588698631345301964810804);
    assert_eq!(fee_to_tick_spacing(500), 10);
    assert_eq!(fee_to_tick_spacing(3000), 60);
    assert_eq!(fee_to_tick_spacing(10000), 200);
}

#[test]
fn mint_then_burn_then_collect_hands_the_tokens_back() {
    let owner = address(10);
    let mut pool = new_pool(3000, 60, Q96);
    let paid = pool.mint(&owner, &owner, -60, 60, 1_000_000_000_000).unwrap();
    assert_eq!(paid, (2995354956, 2995354956));
    assert_eq!(pool.liquidity(), Ok(1_000_000_000_000));
    assert_eq!(pool.get_tick(-60).liquidity_gross, 1_000_000_000_000);
    assert_eq!(pool.get_tick(-60).liquidity_net, 1_000_000_000_000);
    assert_eq!(pool.get_tick(60).liquidity_gross, 1_000_000_000_000);
    assert_eq!(pool.get_tick(60).liquidity_net, -1_000_000_000_000);
    assert!(pool.get_tick(-60).initialized && pool.get_tick(60).initialized);
    assert_eq!(get_tick_bitmap_word(&pool.storage, -1), 1u128 << 127);
    assert_eq!(get_tick_bitmap_word(&pool.storage, 0), 1u128 << 1);

    let freed = pool.burn(&owner, -60, 60, 1_000_000_000_000).unwrap();
    assert_eq!(freed, (2995354955, 2995354955));
    // burning hands nothing out: the tokens are owed to the position
    assert_eq!(pool.get_position(owner, -60, 60).tokens_owed_0, freed.0);
    assert_eq!(pool.get_position(owner, -60, 60).tokens_owed_1, freed.1);
    let collected = pool.collect(&owner, -60, 60, u128::MAX, u128::MAX).unwrap();
    assert_eq!(collected, freed);
    assert!(paid.0 - collected.0 <= 1);
    assert!(paid.1 - collected.1 <= 1);

    assert!(!has_tick(&pool.storage, -60));
    assert!(!has_tick(&pool.storage, 60));
    assert_eq!(pool.get_tick(-60).liquidity_gross, 0);
    assert_eq!(get_tick_bitmap_word(&pool.storage, -1), 0);
    assert_eq!(get_tick_bitmap_word(&pool.storage, 0), 0);
    assert_eq!(pool.liquidity(), Ok(0));
    assert_eq!(pool.get_position(owner, -60, 60), PositionInfo::new());
    assert!(pool.storage.positions.is_empty());
}

#[test]
fn swap_of_token0_for_token1_within_one_range() {
    let owner = address(10);
    let mut pool = new_pool(500, 10, Q96);
    pool.mint(&owner, &owner, -100, 100, 1_000_000_000_000_000_000).unwrap();
    let before = PoolSnapshot::capture(&pool.storage).unwrap();
    let (amount0, amount1) = pool.swap(true, 1_000_000_000, 0).unwrap();
    let after = PoolSnapshot::capture(&pool.storage).unwrap();
    assert_eq!(amount0, 1_000_000_000);
    assert!(amount1 < 0);
    assert_eq!(amount1, -999499999);
    assert!(after.sqrt_price_x96 < Q96);
    assert!(after.sqrt_price_x96 >= MIN_SQRT_RATIO + 1);
    assert_eq!(after.sqrt_price_x96, 79228162435075789239685698991);
    assert_eq!(after.tick, -1);
    let tick_of_price = get_tick_at_sqrt_ratio(after.sqrt_price_x96).unwrap();
    assert!(tick_consistent_with_price(after.tick, tick_of_price));
    assert!(after.fee_growth_global_0 > 0);
    assert_eq!(after.fee_growth_global_0, 170141183460469231731687303);
    assert_eq!(after.fee_growth_global_1, 0);
    assert_eq!(after.liquidity, before.liquidity);
    assert!(swap_amounts_opposite_signs(amount0, amount1));
    assert!(swap_direction_consistent(true, before.sqrt_price_x96, after.sqrt_price_x96));
    assert!(swap_respects_limit(true, after.sqrt_price_x96, MIN_SQRT_RATIO + 1));
    assert!(fee_growth_monotonic(before.fee_growth_global_0, after.fee_growth_global_0));
}

#[test]
fn two_swaps_in_a_row_come_to_what_one_swap_of_the_sum_does() {
    let owner = address(10);
    let mut once = new_pool(500, 10, Q96);
    once.mint(&owner, &owner, -100, 100, 1_000_000_000_000_000_000).unwrap();
    let whole = once.swap(true, 1_000_000_000, 0).unwrap();

    let mut twice = new_pool(500, 10, Q96);
    twice.mint(&owner, &owner, -100, 100, 1_000_000_000_000_000_000).unwrap();
    let first = twice.swap(true, 500_000_000, 0).unwrap();
    let second = twice.swap(true, 500_000_000, 0).unwrap();
    assert_eq!(first, (500000000, -499749999));
    assert_eq!(second, (500000000, -499749999));
    assert_eq!(first.0 + second.0, whole.0);
    assert!((first.1 + second.1 - whole.1).abs() <= 1);
    assert!((twice.tick().unwrap() - once.tick().unwrap()).abs() <= 1);
    let price_once = once.sqrt_price_x96().unwrap();
    let price_twice = twice.sqrt_price_x96().unwrap();
    assert_eq!(price_twice, 79228162435075789239685698992);
    assert!(price_twice >= price_once && price_twice - price_once <= Q96 / 1_000_000_000_000_000_000);
}

#[test]
fn swap_across_initialized_ticks_moves_the_active_liquidity() {
    let owner = address(10);
    let mut pool = new_pool(3000, 60, Q96);
    pool.mint(&owner, &owner, -120, 120, 1_000_000_000_000).unwrap();
    pool.mint(&owner, &owner, 60, 180, 1_000_000_000_000).unwrap();
    assert_eq!(pool.liquidity(), Ok(1_000_000_000_000));
    // a limit between the ticks 120 and 180 stops the swap inside the
    // second range
    let limit = get_sqrt_ratio_at_tick(150);
    let (amount0, amount1) = pool.swap(false, 10_000_000_000_000, limit).unwrap();
    assert!(amount0 < 0 && amount1 > 0);
    assert_eq!(pool.sqrt_price_x96(), Ok(limit));
    assert_eq!(pool.tick(), Ok(150));
    // tick 60 brought the second position in, tick 120 took the first out
    assert_eq!(pool.liquidity(), Ok(1_000_000_000_000));
    assert!(pool.get_state().unwrap().fee_growth_global_1_x128 > 0);
    assert_eq!(pool.get_state().unwrap().fee_growth_global_0_x128, 0);
    // the records of the crossed ticks keep their liquidity
    assert_eq!(pool.get_tick(120).liquidity_net, -1_000_000_000_000);
    assert_eq!(pool.get_tick(60).liquidity_net, 1_000_000_000_000);
    assert_eq!(net_liquidity_of_all_ticks(&pool, 60, -600, 600), 0);
}

#[test]
fn swap_across_tick_120_leaves_the_second_position_active() {
    let owner = address(10);
    let mut pool = new_pool(3000, 60, Q96);
    pool.mint(&owner, &owner, -120, 120, 1_000_000_000_000).unwrap();
    pool.mint(&owner, &owner, 60, 180, 1_000_000_000_000).unwrap();
    let (amount0, amount1) = pool.swap(false, 10_000_000_000, 0).unwrap();
    assert_eq!((amount0, amount1), (-9894942373, 10000000000));
    assert_eq!(amount1, 10_000_000_000);
    assert_eq!(pool.sqrt_price_x96(), Ok(79779322717680454931464951318));
    assert_eq!(pool.tick(), Ok(138));
    assert!(120 <= pool.tick().unwrap() && pool.tick().unwrap() < 180);
    assert_eq!(pool.liquidity(), Ok(1_000_000_000_000));
    assert_eq!(pool.get_state().unwrap().fee_growth_global_1_x128, 7123014410186517894724316183253461);
    assert!(pool.get_state().unwrap().fee_growth_global_1_x128 > 0);
}

#[test]
fn swap_that_stops_at_its_price_limit() {
    let owner = address(10);
    let mut pool = new_pool(3000, 60, Q96);
    pool.mint(&owner, &owner, -6000, 6000, 1_000_000_000_000_000_000_000_000).unwrap();
    let limit = Q96 * 999 / 1000;
    let specified = 1_000_000_000_000_000_000_000_000_000_000i128;
    let (amount0, amount1) = pool.swap(true, specified, limit).unwrap();
    assert!(amount0 < specified);
    assert_eq!((amount0, amount1), (1004013040121365096291, -1000000000000000000000));
    assert_eq!(pool.sqrt_price_x96(), Ok(limit));
    assert_eq!(pool.tick(), Ok(-21));
    assert!(pool.get_state().unwrap().fee_growth_global_0_x128 > 0);
    assert_eq!(pool.get_state().unwrap().fee_growth_global_0_x128, 1024943801135955805790058134805041);
}

#[test]
fn swap_halts_at_the_cap_on_crossed_ticks() {
    let owner = address(10);
    let mut pool = new_pool(3000, 60, Q96);
    for k in 1..=60 {
        pool.mint(&owner, &owner, -60 * k, 60 * k, 1_000_000_000_000).unwrap();
    }
    assert_eq!(pool.liquidity(), Ok(60_000_000_000_000));
    let specified = 1_000_000_000_000_000i128;
    let (amount0, amount1) = pool.swap(true, specified, 0).unwrap();
    // a partial fill: forty ticks crossed, part of the input used
    assert_eq!((amount0, amount1), (5127782492576, -4624695123576));
    assert!(0 < amount0 && amount0 < specified);
    assert_eq!(pool.liquidity(), Ok(20000000000000));
    assert_eq!(pool.liquidity(), Ok(60_000_000_000_000 - 40 * 1_000_000_000_000));
    assert_eq!(pool.tick(), Ok(-2401));
    assert_eq!(pool.sqrt_price_x96(), Ok(get_sqrt_ratio_at_tick(-60 * 40)));
    assert_eq!(MAX_TICK_CROSSINGS_PER_SWAP, 40);
    assert_eq!(net_liquidity_of_all_ticks(&pool, 60, -3600, 3600), 0);
    // the caller goes on where the swap halted
    let (again0, again1) = pool.swap(true, specified - amount0, 0).unwrap();
    assert_eq!((again0, again1), (727251569113, -547455633558));
    assert_eq!(pool.liquidity(), Ok(0));
}

#[test]
fn swap_for_an_exact_output() {
    let owner = address(10);
    let mut pool = new_pool(3000, 60, Q96);
    pool.mint(&owner, &owner, -600, 600, 1_000_000_000_000_000).unwrap();
    assert_eq!(pool.swap(true, -1_000_000_000, 0), Ok((1003010032, -1000000000)));
    assert_eq!(pool.sqrt_price_x96(), Ok(79228083286101823329206356792));
    assert_eq!(pool.tick(), Ok(-1));

    let mut other = new_pool(3000, 60, Q96);
    other.mint(&owner, &owner, -600, 600, 1_000_000_000_000_000).unwrap();
    assert_eq!(other.swap(false, -1_000_000_000, 0), Ok((-1000000000, 1003010032)));
    assert_eq!(other.sqrt_price_x96(), Ok(79228241742506080099624049961));
    assert_eq!(other.tick(), Ok(0));
}

#[test]
fn swap_with_a_limit_of_zero_runs_to_the_end_of_the_price_domain() {
    // without liquidity nothing stops the price on its way
    let mut down = new_pool(3000, 60, Q96);
    assert_eq!(down.swap(true, 1_000, 0), Ok((0, 0)));
    assert_eq!(down.sqrt_price_x96(), Ok(MIN_SQRT_RATIO + 1));
    assert_eq!(down.tick(), Ok(MIN_TICK));
    let mut up = new_pool(3000, 60, Q96);
    assert_eq!(up.swap(false, 1_000, 0), Ok((0, 0)));
    assert_eq!(up.sqrt_price_x96(), Ok(MAX_SQRT_RATIO - 1));
    assert_eq!(up.tick(), Ok(MAX_TICK - 1));
}

#[test]
fn swap_fails() {
    let owner = address(10);
    let mut pool = new_pool(3000, 60, Q96);
    pool.mint(&owner, &owner, -600, 600, 1_000_000_000_000_000).unwrap();
    let before = pool.get_state().unwrap();
    assert_eq!(pool.swap(true, 0, 0), Err(PoolError::ZeroAmount));
    assert_eq!(pool.swap(true, 1, Q96), Err(PoolError::BadPriceLimit));
    assert_eq!(pool.swap(true, 1, Q96 + 1), Err(PoolError::BadPriceLimit));
    assert_eq!(pool.swap(true, 1, MIN_SQRT_RATIO), Err(PoolError::BadPriceLimit));
    assert_eq!(pool.swap(false, 1, Q96), Err(PoolError::BadPriceLimit));
    assert_eq!(pool.swap(false, 1, Q96 - 1), Err(PoolError::BadPriceLimit));
    assert_eq!(pool.swap(false, 1, MAX_SQRT_RATIO), Err(PoolError::BadPriceLimit));
    assert_eq!(pool.get_state().unwrap(), before);
}

#[test]
fn execute_swap_on_a_store() {
    let owner = address(10);
    let mut pool = new_pool(3000, 60, Q96);
    pool.mint(&owner, &owner, -600, 600, 1_000_000_000_000_000).unwrap();
    assert_eq!(execute_swap(&mut pool.storage, true, -1_000_000_000, 0), Ok((1003010032, -1000000000)));
    let mut empty = PoolStorage::new();
    assert_eq!(execute_swap(&mut empty, true, 1, 0), Err(PoolError::NotInitialized));
}

#[test]
fn mint_fails() {
    let owner = address(10);
    let mut pool = new_pool(3000, 60, Q96);
    assert_eq!(pool.mint(&address(11), &owner, -60, 60, 1), Err(PoolError::Unauthorized));
    assert_eq!(pool.mint(&owner, &owner, -60, 60, 0), Err(PoolError::ZeroAmount));
    assert_eq!(pool.mint(&owner, &owner, 60, 60, 1), Err(PoolError::BadTickRange));
    assert_eq!(pool.mint(&owner, &owner, 60, -60, 1), Err(PoolError::BadTickRange));
    assert_eq!(pool.mint(&owner, &owner, -61, 60, 1), Err(PoolError::BadTickRange));
    assert_eq!(pool.mint(&owner, &owner, -60, 61, 1), Err(PoolError::BadTickRange));
    assert_eq!(pool.mint(&owner, &owner, -443640, 60, 1), Err(PoolError::BadTickRange));
    assert_eq!(pool.mint(&owner, &owner, -60, 443640, 1), Err(PoolError::BadTickRange));
    assert_eq!(pool.mint(&owner, &owner, -60, 60, u128::MAX), Err(PoolError::LiquidityOverflow));
    let cap = pool.get_config().unwrap().max_liquidity_per_tick;
    assert_eq!(pool.mint(&owner, &owner, -60, 60, cap + 1), Err(PoolError::LiquidityOverflow));
    assert_eq!(pool.liquidity(), Ok(0));
    assert!(pool.storage.positions.is_empty());
    assert_eq!(get_tick_bitmap_word(&pool.storage, 0), 0);
    assert_eq!(validate_ticks(-60, 60, 60), Ok(()));
    assert_eq!(validate_ticks(-443580, 443580, 60), Ok(()));
    assert_eq!(validate_ticks(-60, 60, 7), Err(PoolError::BadTickRange));
}

#[test]
fn burn_fails() {
    let owner = address(10);
    let mut pool = new_pool(3000, 60, Q96);
    pool.mint(&owner, &owner, -60, 60, 1_000).unwrap();
    assert_eq!(pool.burn(&owner, -60, 60, 1_001), Err(PoolError::LiquidityUnderflow));
    assert_eq!(pool.burn(&address(11), -60, 60, 1), Err(PoolError::BurnExceedsLiquidity));
    assert_eq!(pool.burn(&owner, -60, 120, 1), Err(PoolError::LiquidityUnderflow));
    assert_eq!(pool.burn(&owner, -60, 61, 1), Err(PoolError::BadTickRange));
    assert_eq!(pool.burn(&owner, -60, 60, u128::MAX), Err(PoolError::BurnExceedsLiquidity));
    // a second owner at the same ticks: the ticks cover the burn, the
    // position does not
    let other = address(11);
    pool.mint(&other, &other, -60, 60, 5_000).unwrap();
    assert_eq!(pool.burn(&owner, -60, 60, 1_001), Err(PoolError::BurnExceedsLiquidity));
    assert_eq!(pool.get_tick(-60).liquidity_gross, 6_000);
    assert_eq!(pool.liquidity(), Ok(6_000));
    assert_eq!(pool.get_position(owner, -60, 60).liquidity, 1_000);
}

#[test]
fn mint_raises_the_active_liquidity_only_inside_the_range() {
    let owner = address(10);
    let mut pool = new_pool(3000, 60, Q96);
    assert_eq!(pool.mint(&owner, &owner, -60, 60, 1_000_000_000), Ok((2995355, 2995355)));
    assert_eq!(pool.liquidity(), Ok(1_000_000_000));
    assert_eq!(pool.mint(&owner, &owner, 120, 240, 1_000_000_000), Ok((5945957, 0)));
    assert_eq!(pool.liquidity(), Ok(1_000_000_000));
    assert_eq!(pool.mint(&owner, &owner, -240, -120, 1_000_000_000), Ok((0, 5945957)));
    assert_eq!(pool.liquidity(), Ok(1_000_000_000));
    // the upper end of a range is outside it
    let mut at_end = new_pool(3000, 60, get_sqrt_ratio_at_tick(60));
    at_end.mint(&owner, &owner, 0, 60, 5).unwrap();
    assert_eq!(at_end.liquidity(), Ok(0));
    at_end.mint(&owner, &owner, 60, 120, 7).unwrap();
    assert_eq!(at_end.liquidity(), Ok(7));
}

#[test]
fn mint_then_burn_restores_the_ticks() {
    let owner = address(10);
    let other = address(11);
    let mut pool = new_pool(3000, 60, Q96);
    pool.mint(&other, &other, -120, 60, 777).unwrap();
    let lower = TickSnapshot::capture(&pool.storage, -60);
    let upper = TickSnapshot::capture(&pool.storage, 60);
    pool.mint(&owner, &owner, -60, 60, 1_000).unwrap();
    assert_eq!(TickSnapshot::capture(&pool.storage, 60).liquidity_gross, 1_777);
    assert_eq!(TickSnapshot::capture(&pool.storage, 60).liquidity_net, -1_777);
    assert_eq!(PositionSnapshot::capture(&pool.storage, &owner, -60, 60).liquidity, 1_000);
    pool.burn(&owner, -60, 60, 1_000).unwrap();
    assert_eq!(TickSnapshot::capture(&pool.storage, -60), lower);
    assert_eq!(TickSnapshot::capture(&pool.storage, 60), upper);
    assert!(!lower.initialized && upper.initialized);
    assert_eq!(net_liquidity_of_all_ticks(&pool, 60, -600, 600), 0);
}

#[test]
fn fees_accrue_to_the_position() {
    let owner = address(10);
    let mut pool = new_pool(3000, 60, Q96);
    pool.mint(&owner, &owner, -600, 600, 1_000_000_000_000_000).unwrap();
    pool.swap(true, 1_000_000_000_000, 0).unwrap();
    pool.swap(false, 1_000_000_000_000, 0).unwrap();
    // a burn of nothing settles the fees
    assert_eq!(pool.burn(&owner, -600, 600, 0), Ok((0, 0)));
    let position = pool.get_position(owner, -600, 600);
    assert_eq!(position.liquidity, 1_000_000_000_000_000);
    assert_eq!(position.tokens_owed_0, 2999999999);
    assert_eq!(position.tokens_owed_1, 2999999999);
    assert_eq!(position.fee_growth_inside_0_last_x128, 1020847100762815390390123822295304);
    assert_eq!(position.fee_growth_inside_1_last_x128, 1020847100762815390390123822295304);
    // a collect hands out what is asked for, as far as it is owed
    assert_eq!(pool.collect(&owner, -600, 600, 10, u128::MAX), Ok((10, 2999999999)));
    assert_eq!(pool.get_position(owner, -600, 600).tokens_owed_0, 2999999989);
    assert_eq!(pool.get_position(owner, -600, 600).tokens_owed_1, 0);
    assert_eq!(pool.collect(&address(11), -600, 600, 10, 10), Ok((0, 0)));
}

#[test]
fn position_update_exact_values() {
    let info = PositionInfo {
        liquidity: 1_000,
        fee_growth_inside_0_last_x128: u128::MAX - 4,
        fee_growth_inside_1_last_x128: 0,
        tokens_owed_0: 1,
        tokens_owed_1: 2,
    };
    // growth of token0 wrapped: 5 + 2^127 since last time
    let updated = compute_position_update(&info, -400, 1u128 << 127, 1u128 << 126).unwrap();
    assert_eq!(updated.liquidity, 600);
    assert_eq!(updated.tokens_owed_0, 1 + 500);
    assert_eq!(updated.tokens_owed_1, 2 + 250);
    assert_eq!(updated.fee_growth_inside_0_last_x128, 1u128 << 127);
    assert_eq!(compute_position_update(&info, -1_001, 0, 0), Err(PoolError::BurnExceedsLiquidity));
    assert_eq!(compute_position_update(&info, i128::MAX, 0, 0).map(|p| p.liquidity), Ok(1_000 + i128::MAX as u128));
    let full = PositionInfo { tokens_owed_0: u128::MAX, ..info };
    assert_eq!(compute_position_update(&full, 0, 1u128 << 127, 0), Err(PoolError::NumericOverflow));
    let most = PositionInfo { liquidity: u128::MAX, ..info };
    assert_eq!(compute_position_update(&most, 1, 0, 0), Err(PoolError::LiquidityOverflow));
}

#[test]
fn storage_of_positions_and_state() {
    let mut store = PoolStorage::new();
    assert_eq!(get_state(&store), Err(PoolError::NotInitialized));
    assert_eq!(get_config(&store), Err(PoolError::NotInitialized));
    let state = PoolState::new(Q96, 0);
    set_state(&mut store, &state);
    assert_eq!(get_state(&store), Ok(state));
    let config = PoolConfig {
        factory: address(1),
        token0: address(2),
        token1: address(3),
        fee: 3000,
        tick_spacing: 60,
        max_liquidity_per_tick: max_liquidity_per_tick(60),
    };
    set_config(&mut store, &config);
    assert_eq!(get_config(&store), Ok(config));

    let first = PositionKey { owner: address(10), tick_lower: -60, tick_upper: 60 };
    let second = PositionKey { owner: address(11), tick_lower: -60, tick_upper: 60 };
    let info = PositionInfo { liquidity: 5, ..PositionInfo::new() };
    let owed = PositionInfo { tokens_owed_1: 9, ..PositionInfo::new() };
    set_position(&mut store, &first, &info);
    set_position(&mut store, &second, &owed);
    assert_eq!(get_position(&store, &first), info);
    assert_eq!(get_position(&store, &second), owed);
    set_position(&mut store, &first, &owed);
    assert_eq!(get_position(&store, &first), owed);
    assert_eq!(store.positions.len(), 2);
    // a record that holds nothing is removed
    set_position(&mut store, &first, &PositionInfo::new());
    assert_eq!(get_position(&store, &first), PositionInfo::new());
    assert_eq!(get_position(&store, &second), owed);
    assert_eq!(store.positions.len(), 1);

    update_position(&mut store, &second, 100, 0, 0).unwrap();
    assert_eq!(get_position(&store, &second).liquidity, 100);
    assert_eq!(update_position(&mut store, &second, -101, 0, 0), Err(PoolError::BurnExceedsLiquidity));
    assert_eq!(get_position(&store, &second).liquidity, 100);
}

#[test]
fn ticks_bitmap_and_active_liquidity_stay_in_step() {
    let owners = [address(10), address(11), address(12)];
    let mut pool = new_pool(3000, 60, Q96);
    let ranges: [(usize, i32, i32, u128); 6] = [
        (0, -120, 120, 1_000_000_000),
        (1, -60, 60, 2_000_000_000),
        (2, 60, 180, 3_000_000_000),
        (0, -7680, 7680, 4_000_000_000),
        (1, -180, -60, 5_000_000_000),
        (2, -120, 120, 6_000_000_000),
    ];
    for (who, lower, upper, amount) in ranges {
        pool.mint(&owners[who], &owners[who], lower, upper, amount).unwrap();
    }
    pool.swap(false, 40_000_000, 0).unwrap();
    pool.burn(&owners[1], -60, 60, 2_000_000_000).unwrap();
    pool.swap(true, -30_000_000, 0).unwrap();
    pool.burn(&owners[0], -120, 120, 400_000_000).unwrap();
    pool.swap(true, 90_000_000, 0).unwrap();

    let state = pool.get_state().unwrap();
    // the active liquidity is that of the positions around the tick
    let mut active = 0u128;
    for entry in pool.storage.positions.iter() {
        if entry.key.tick_lower <= state.tick && state.tick < entry.key.tick_upper {
            active += entry.info.liquidity;
        }
    }
    assert_eq!(state.liquidity, active);
    // of every tick on the spacing
    let mut net = 0i128;
    let mut tick = -7800;
    while tick <= 7800 {
        let info = pool.get_tick(tick);
        net += info.liquidity_net;
        assert!(info.liquidity_net.unsigned_abs() <= info.liquidity_gross);
        assert_eq!(info.initialized, info.liquidity_gross > 0);
        assert_eq!(has_tick(&pool.storage, tick), info.initialized);
        let compressed = tick.div_euclid(60);
        let word = get_tick_bitmap_word(&pool.storage, compressed >> 7);
        assert_eq!((word >> compressed.rem_euclid(128)) & 1 == 1, info.initialized);
        tick += 60;
    }
    assert_eq!(net, 0);
    assert!(price_in_bounds(&state));
    let tick_of_price = get_tick_at_sqrt_ratio(state.sqrt_price_x96).unwrap();
    assert!(tick_consistent_with_price(state.tick, tick_of_price));
}
