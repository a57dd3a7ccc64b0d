use dex_pool::factory::{pool_salt, sort_tokens, DexFactory, FactoryError};
use dex_pool::types::Address;

fn address(n: u128) -> Address {
    Address { contract: true, hi: 0, lo: n }
}

fn account(n: u128) -> Address {
    Address { contract: false, hi: 0, lo: n }
}

fn new_factory() -> (DexFactory, Address) {
    let admin = account(1);
    let mut factory = DexFactory::new();
    factory.initialize(&admin, admin, [1u8; 32]).unwrap();
    (factory, admin)
}

#[test]
fn test_initialize_factory() {
    let admin = account(1);
    let mut factory = DexFactory::new();
    let pool_wasm_hash = [1u8; 32];

    factory.initialize(&admin, admin, pool_wasm_hash).unwrap();

    // Verify admin
    assert_eq!(factory.get_admin().unwrap(), admin);

    // Verify pool WASM hash
    assert_eq!(factory.get_pool_wasm_hash().unwrap(), pool_wasm_hash);

    // Verify default fee tiers
    assert_eq!(factory.get_fee_tick_spacing(500), 10); // 0.05%
    assert_eq!(factory.get_fee_tick_spacing(3000), 60); // 0.3%
    assert_eq!(factory.get_fee_tick_spacing(10000), 200); // 1%
}

#[test]
fn test_get_fee_tick_spacing_default() {
    let (factory, _admin) = new_factory();

    // Default fee tiers
    assert_eq!(factory.get_fee_tick_spacing(500), 10);
    assert_eq!(factory.get_fee_tick_spacing(3000), 60);
    assert_eq!(factory.get_fee_tick_spacing(10000), 200);

    // Unknown fee tier returns 0
    assert_eq!(factory.get_fee_tick_spacing(100), 0);
    assert_eq!(factory.get_fee_tick_spacing(5000), 0);
}

#[test]
fn test_enable_fee_amount() {
    let (mut factory, admin) = new_factory();

    // Enable a new fee tier
    factory.enable_fee_amount(&admin, 100, 1).unwrap(); // 0.01% with tick spacing 1
    assert_eq!(factory.get_fee_tick_spacing(100), 1);
}

#[test]
fn test_get_pool_not_exists() {
    let (factory, _admin) = new_factory();

    let token0 = address(10);
    let token1 = address(11);

    // Pool should not exist
    let pool = factory.get_pool(token0, token1, 3000);
    assert!(pool.is_none());
}

#[test]
fn test_get_all_pools_empty() {
    let (factory, _admin) = new_factory();

    let pools = factory.get_all_pools();
    assert_eq!(pools.len(), 0);

    // Also verify pool count
    assert_eq!(factory.get_pool_count(), 0);
}

#[test]
fn test_pool_count_and_pagination() {
    let (factory, _admin) = new_factory();

    // Initially pool count is 0
    assert_eq!(factory.get_pool_count(), 0);

    // get_pool_at returns None for non-existent index
    assert!(factory.get_pool_at(0).is_none());

    // get_pools_paginated returns empty for no pools
    let paginated = factory.get_pools_paginated(0, 10);
    assert_eq!(paginated.len(), 0);
}

#[test]
fn test_set_fee_recipient() {
    let (mut factory, admin) = new_factory();

    // Initially no fee recipient
    let recipient = factory.get_fee_recipient();
    assert!(recipient.is_none());

    // Set fee recipient
    let new_recipient = account(5);
    factory.set_fee_recipient(&admin, new_recipient).unwrap();

    let recipient = factory.get_fee_recipient();
    assert_eq!(recipient, Some(new_recipient));
}

#[test]
fn test_get_admin() {
    let (factory, admin) = new_factory();
    assert_eq!(factory.get_admin().unwrap(), admin);
}

#[test]
fn test_get_pool_token_order_invariant() {
    let (factory, _admin) = new_factory();

    let token_a = address(10);
    let token_b = address(11);

    // Querying with either order should return the same result
    let pool_ab = factory.get_pool(token_a, token_b, 3000);
    let pool_ba = factory.get_pool(token_b, token_a, 3000);
    assert_eq!(pool_ab, pool_ba);
}

#[test]
fn test_fee_not_enabled_returns_zero() {
    let (factory, _admin) = new_factory();

    // Non-existent fee tier should return 0
    assert_eq!(factory.get_fee_tick_spacing(999), 0);
    assert_eq!(factory.get_fee_tick_spacing(50000), 0);
}

#[test]
fn test_boundary_fee_values() {
    let (mut factory, admin) = new_factory();

    // Enable minimum fee (0.0001%)
    factory.enable_fee_amount(&admin, 1, 1).unwrap();
    assert_eq!(factory.get_fee_tick_spacing(1), 1);

    // Enable near-maximum fee (99.9999%)
    factory.enable_fee_amount(&admin, 999_999, 16384).unwrap();
    assert_eq!(factory.get_fee_tick_spacing(999_999), 16384);
}

#[test]
fn test_boundary_tick_spacing() {
    let (mut factory, admin) = new_factory();

    // Minimum valid tick spacing
    factory.enable_fee_amount(&admin, 1, 1).unwrap();
    assert_eq!(factory.get_fee_tick_spacing(1), 1);

    // Maximum valid tick spacing
    factory.enable_fee_amount(&admin, 2, 16384).unwrap();
    assert_eq!(factory.get_fee_tick_spacing(2), 16384);
}

#[test]
fn factory_initialization_fails() {
    let admin = account(1);
    let mut factory = DexFactory::new();
    assert_eq!(factory.get_admin(), Err(FactoryError::NotInitialized));
    assert_eq!(factory.get_pool_wasm_hash(), Err(FactoryError::NotInitialized));
    assert_eq!(factory.enable_fee_amount(&admin, 100, 1), Err(FactoryError::NotInitialized));
    assert_eq!(factory.set_fee_recipient(&admin, admin), Err(FactoryError::NotInitialized));
    assert_eq!(factory.initialize(&account(2), admin, [0u8; 32]), Err(FactoryError::Unauthorized));
    assert_eq!(factory.initialize(&admin, admin, [0u8; 32]), Ok(()));
    assert_eq!(factory.initialize(&admin, admin, [0u8; 32]), Err(FactoryError::AlreadyInitialized));
}

#[test]
fn enabling_a_fee_fails() {
    let (mut factory, admin) = new_factory();
    assert_eq!(factory.enable_fee_amount(&account(2), 100, 1), Err(FactoryError::Unauthorized));
    assert_eq!(factory.enable_fee_amount(&admin, 500, 10), Err(FactoryError::FeeAlreadyEnabled));
    assert_eq!(factory.enable_fee_amount(&admin, 100, 0), Err(FactoryError::InvalidTickSpacing));
    assert_eq!(factory.enable_fee_amount(&admin, 100, -1), Err(FactoryError::InvalidTickSpacing));
    assert_eq!(factory.enable_fee_amount(&admin, 100, 20000), Err(FactoryError::InvalidTickSpacing));
    assert_eq!(factory.enable_fee_amount(&admin, 100, 16385), Err(FactoryError::InvalidTickSpacing));
    assert_eq!(factory.enable_fee_amount(&admin, 1_000_000, 100), Err(FactoryError::FeeTooHigh));
    assert_eq!(factory.enable_fee_amount(&admin, 1_000_000, 0), Err(FactoryError::InvalidTickSpacing));
    assert_eq!(factory.get_fee_tick_spacing(100), 0);
    assert_eq!(factory.set_fee_recipient(&account(2), admin), Err(FactoryError::Unauthorized));
    assert_eq!(factory.get_fee_recipient(), None);
}

#[test]
fn a_fee_of_999_999_with_a_spacing_of_16384_can_be_enabled() {
    let (mut factory, admin) = new_factory();
    assert_eq!(factory.enable_fee_amount(&admin, 999_999, 16384), Ok(()));
    assert_eq!(factory.get_fee_tick_spacing(999_999), 16384);
    assert_eq!(factory.enable_fee_amount(&admin, 1_000_000, 16384), Err(FactoryError::FeeTooHigh));
}

#[test]
fn creating_pools() {
    let (mut factory, _admin) = new_factory();
    let (a, b, c) = (address(10), address(11), account(12));
    assert_eq!(factory.create_pool(a, a, 3000, address(100)), Err(FactoryError::IdenticalTokens));
    assert_eq!(factory.create_pool(a, b, 100, address(100)), Err(FactoryError::FeeNotEnabled));
    let record = factory.create_pool(b, a, 3000, address(100)).unwrap();
    assert_eq!((record.token0, record.token1, record.fee, record.pool), (a, b, 3000, address(100)));
    assert_eq!(factory.create_pool(a, b, 3000, address(101)), Err(FactoryError::PoolAlreadyExists));
    assert_eq!(factory.create_pool(b, a, 3000, address(101)), Err(FactoryError::PoolAlreadyExists));
    // the same pair at another fee, and another pair at the same fee
    factory.create_pool(a, b, 500, address(101)).unwrap();
    let mixed = factory.create_pool(a, c, 3000, address(102)).unwrap();
    // accounts come before contracts
    assert_eq!((mixed.token0, mixed.token1), (c, a));
    assert_eq!(factory.get_pool(a, b, 3000), Some(address(100)));
    assert_eq!(factory.get_pool(b, a, 3000), Some(address(100)));
    assert_eq!(factory.get_pool(a, b, 500), Some(address(101)));
    assert_eq!(factory.get_pool(c, a, 3000), Some(address(102)));
    assert_eq!(factory.get_pool(b, c, 3000), None);
    assert_eq!(factory.get_pool(a, b, 10000), None);
    assert_eq!(factory.get_pool_count(), 3);
    assert_eq!(factory.get_pool_at(0), Some(address(100)));
    assert_eq!(factory.get_pool_at(2), Some(address(102)));
    assert_eq!(factory.get_pool_at(3), None);
    assert_eq!(factory.get_all_pools(), vec![address(100), address(101), address(102)]);
    assert_eq!(sort_tokens(b, a), (a, b));
    assert_eq!(sort_tokens(a, b), (a, b));
}

#[test]
fn pages_of_the_directory_hold_at_most_fifty_pools() {
    let (mut factory, admin) = new_factory();
    for fee in 1..=120u32 {
        if fee != 500 && fee != 3000 && fee != 10000 {
            factory.enable_fee_amount(&admin, fee, 1).unwrap();
        }
        factory.create_pool(address(10), address(11), fee, address(1000 + fee as u128)).unwrap();
    }
    assert_eq!(factory.get_pool_count(), 120);
    assert_eq!(factory.get_all_pools().len(), 50);
    assert_eq!(factory.get_pools_paginated(0, 1000).len(), 50);
    assert_eq!(factory.get_pools_paginated(0, 50).len(), 50);
    assert_eq!(factory.get_pools_paginated(0, 51).len(), 50);
    assert_eq!(factory.get_pools_paginated(100, 50).len(), 20);
    assert_eq!(factory.get_pools_paginated(120, 50).len(), 0);
    assert_eq!(factory.get_pools_paginated(u32::MAX, u32::MAX).len(), 0);
    assert_eq!(factory.get_pools_paginated(7, 0).len(), 0);
    assert_eq!(factory.get_pools_paginated(7, 3), vec![address(1008), address(1009), address(1010)]);
    assert_eq!(factory.get_pools_paginated(118, 3), vec![address(1119), address(1120)]);
}

#[test]
fn salt_of_a_pool() {
    let salt = pool_salt(0x01020304, 3000);
    assert_eq!(&salt[0..4], &[1u8, 2, 3, 4]);
    assert_eq!(&salt[4..8], &3000u32.to_be_bytes());
    assert_eq!(&salt[8..], &[0u8; 24]);
    assert_eq!(pool_salt(u32::MAX, 0)[0..8], [255u8, 255, 255, 255, 0, 0, 0, 0]);
}
