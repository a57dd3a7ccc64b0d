//! The directory of pools: which fees may be used, with which tick
//! spacing, and which pool serves a pair of tokens at a fee.

use vstd::prelude::*;
use std::collections::HashMap;
use crate::constants::{FEE_DENOMINATOR, MAX_PAGE_SIZE, MAX_TICK_SPACING};
use crate::types::Address;

verus! {

broadcast use vstd::std_specs::hash::group_hash_axioms;

/// Every way an operation of the factory can end without effect.
#[derive(Clone, Copy, Debug, PartialEq, Eq, Structural)]
pub enum FactoryError {
    /// The factory was initialized before.
    AlreadyInitialized,
    /// The factory was not initialized yet.
    NotInitialized,
    /// The caller is not the administrator.
    Unauthorized,
    /// The two tokens of a pair are the same.
    IdenticalTokens,
    /// The pair has a pool at the fee already.
    PoolAlreadyExists,
    /// The fee is not enabled.
    FeeNotEnabled,
    /// The tick spacing is not between 1 and 16384.
    InvalidTickSpacing,
    /// The fee is not under one million hundredths of a basis point.
    FeeTooHigh,
    /// The fee is enabled already.
    FeeAlreadyEnabled,
    /// The directory holds as many pools as it can count.
    DirectoryFull,
}

/// A pool in the directory.
#[derive(Clone, Copy, Debug, PartialEq, Eq, Structural)]
pub struct PoolRecord {
    /// The token of the pair that comes first in the order of addresses.
    pub token0: Address,
    pub token1: Address,
    pub fee: u32,
    /// Where the pool lives.
    pub pool: Address,
}

/// The factory: its administrator, the fees it allows, and the pools it
/// lists.
pub struct DexFactory {
    pub admin: Option<Address>,
    pub pool_wasm_hash: [u8; 32],
    /// Tick spacing by enabled fee.
    pub fee_tiers: HashMap<u32, i32>,
    /// The pools, in the order they were created.
    pub pools: Vec<PoolRecord>,
    pub fee_recipient: Option<Address>,
}

/// Two tokens in the order of addresses.
pub open spec fn sorted_pair(token_a: Address, token_b: Address) -> (Address, Address) {
    if token_a.spec_lt(&token_b) {
        (token_a, token_b)
    } else {
        (token_b, token_a)
    }
}

/// The index of the first pool of a pair at a fee among the first `n`
/// pools, or `n` where there is none.
pub open spec fn pool_index(
    pools: Seq<PoolRecord>,
    token0: Address,
    token1: Address,
    fee: u32,
    n: int,
) -> int
    decreases n,
{
    if n <= 0 {
        0
    } else {
        let before = pool_index(pools, token0, token1, fee, n - 1);
        if before < n - 1 {
            before
        } else if pools[n - 1].token0 == token0 && pools[n - 1].token1 == token1 && pools[n
            - 1].fee == fee {
            n - 1
        } else {
            n
        }
    }
}

/// The pool of a pair at a fee, if the directory lists one.
pub open spec fn pool_of(pools: Seq<PoolRecord>, token_a: Address, token_b: Address, fee: u32) -> Option<
    Address,
> {
    let pair = sorted_pair(token_a, token_b);
    let i = pool_index(pools, pair.0, pair.1, fee, pools.len() as int);
    if i < pools.len() {
        Some(pools[i].pool)
    } else {
        None
    }
}

/// The tick spacing of a fee; zero for a fee that is not enabled.
pub open spec fn tick_spacing_of(fee_tiers: Map<u32, i32>, fee: u32) -> i32 {
    if fee_tiers.contains_key(fee) {
        fee_tiers[fee]
    } else {
        0
    }
}

/// Every enabled fee is a proper fraction, with a tick spacing in
/// range.
pub open spec fn fee_tiers_wf(fee_tiers: Map<u32, i32>) -> bool {
    forall|fee: u32| #[trigger]
        fee_tiers.contains_key(fee) ==> fee < FEE_DENOMINATOR && 1 <= fee_tiers[fee]
            <= MAX_TICK_SPACING
}

/// The fees that a factory starts with.
pub open spec fn default_fee_tiers() -> Map<u32, i32> {
    Map::<u32, i32>::empty().insert(500, 10).insert(3000, 60).insert(10000, 200)
}

/// Where a page of the directory ends: at most `MAX_PAGE_SIZE` pools
/// after its start, and not past the end of the directory.
pub open spec fn page_end(start_index: u32, limit: u32, count: int) -> int {
    let safe_limit = if limit > MAX_PAGE_SIZE {
        MAX_PAGE_SIZE as int
    } else {
        limit as int
    };
    if start_index + safe_limit > count {
        count
    } else {
        start_index + safe_limit
    }
}

/// The addresses of the pools of a page.
pub open spec fn page_of(pools: Seq<PoolRecord>, start: int, end: int) -> Seq<Address> {
    if start >= end {
        Seq::<Address>::empty()
    } else {
        Seq::new((end - start) as nat, |i: int| pools[start + i].pool)
    }
}

/// What the salt of a pool's address holds: the number of pools before
/// it and its fee, each as four bytes with the highest first, then
/// zeros.
pub open spec fn salt_holds(salt: Seq<u8>, pool_count: u32, fee: u32) -> bool {
    &&& salt.len() == 32
    &&& salt[0] as int * 0x100_0000 + salt[1] as int * 0x1_0000 + salt[2] as int * 0x100
        + salt[3] as int == pool_count
    &&& salt[4] as int * 0x100_0000 + salt[5] as int * 0x1_0000 + salt[6] as int * 0x100
        + salt[7] as int == fee
    &&& forall|i: int| 8 <= i < 32 ==> salt[i] == 0
}

/// Where the first pool of a pair at a fee stands, as `pool_index`
/// finds it.
pub proof fn lemma_pool_index_is(
    pools: Seq<PoolRecord>,
    token0: Address,
    token1: Address,
    fee: u32,
    n: int,
    i: int,
)
    requires
        0 <= i <= n <= pools.len(),
        i < n ==> pools[i].token0 == token0 && pools[i].token1 == token1 && pools[i].fee == fee,
        forall|j: int|
            0 <= j < i ==> !(pools[j].token0 == token0 && pools[j].token1 == token1
                && pools[j].fee == fee),
    ensures
        pool_index(pools, token0, token1, fee, n) == i,
    decreases n,
{
    if n > 0 {
        if i < n - 1 {
            lemma_pool_index_is(pools, token0, token1, fee, n - 1, i);
        } else {
            lemma_pool_index_is(pools, token0, token1, fee, n - 1, n - 1);
        }
    }
}

/// Where `pool_index` finds no pool, there is none.
pub proof fn lemma_pool_index_none(
    pools: Seq<PoolRecord>,
    token0: Address,
    token1: Address,
    fee: u32,
    n: int,
)
    requires
        0 <= n <= pools.len(),
    ensures
        0 <= pool_index(pools, token0, token1, fee, n) <= n,
        pool_index(pools, token0, token1, fee, n) == n ==> forall|j: int|
            0 <= j < n ==> !(pools[j].token0 == token0 && pools[j].token1 == token1
                && pools[j].fee == fee),
    decreases n,
{
    if n > 0 {
        lemma_pool_index_none(pools, token0, token1, fee, n - 1);
    }
}

/// The four bytes of a 32-bit value, the highest first.
fn be_bytes(x: u32) -> (r: (u8, u8, u8, u8))
    ensures
        r.0 as int * 0x100_0000 + r.1 as int * 0x1_0000 + r.2 as int * 0x100 + r.3 as int == x,
{
    (
        (x / 0x100_0000) as u8,
        ((x / 0x1_0000) % 0x100) as u8,
        ((x / 0x100) % 0x100) as u8,
        (x % 0x100) as u8,
    )
}

/// The salt from which the address of a new pool is derived: the
/// number of pools created before it and its fee.
pub fn pool_salt(pool_count: u32, fee: u32) -> (r: [u8; 32])
    ensures
        salt_holds(r@, pool_count, fee),
{
    let count_bytes = be_bytes(pool_count);
    let fee_bytes = be_bytes(fee);
    let mut salt = [0u8;32];
    salt[0] = count_bytes.0;
    salt[1] = count_bytes.1;
    salt[2] = count_bytes.2;
    salt[3] = count_bytes.3;
    salt[4] = fee_bytes.0;
    salt[5] = fee_bytes.1;
    salt[6] = fee_bytes.2;
    salt[7] = fee_bytes.3;
    salt
}

/// Two tokens in the order of addresses.
pub fn sort_tokens(token_a: Address, token_b: Address) -> (r: (Address, Address))
    ensures
        r == sorted_pair(token_a, token_b),
{
    if token_a.lt(&token_b) {
        (token_a, token_b)
    } else {
        (token_b, token_a)
    }
}

impl DexFactory {
    /// What holds of a factory in every state: nothing is listed before
    /// it is initialized, every enabled fee is a proper fraction with a
    /// tick spacing in range, and the directory can be counted.
    pub open spec fn wf(&self) -> bool {
        &&& self.admin is None ==> self.fee_tiers@ == Map::<u32, i32>::empty() && self.pools@.len()
            == 0 && self.fee_recipient is None
        &&& fee_tiers_wf(self.fee_tiers@)
        &&& self.pools@.len() <= u32::MAX
    }

    /// A factory that is not initialized yet.
    pub fn new() -> (r: DexFactory)
        ensures
            r.wf(),
            r.admin is None,
    {
        DexFactory {
            admin: None,
            pool_wasm_hash: [0u8;32],
            fee_tiers: HashMap::new(),
            pools: Vec::new(),
            fee_recipient: None,
        }
    }

    /// Initializes the factory, once, with its administrator and the
    /// code of its pools, and enables the three conventional fees. Only
    /// the administrator to be may do so.
    pub fn initialize(&mut self, caller: &Address, admin: Address, pool_wasm_hash: [u8; 32]) -> (r:
        Result<(), FactoryError>)
        requires
            old(self).wf(),
        ensures
            final(self).wf(),
            r == (if old(self).admin is Some {
                Err::<(), FactoryError>(FactoryError::AlreadyInitialized)
            } else if *caller != admin {
                Err(FactoryError::Unauthorized)
            } else {
                Ok(())
            }),
            r is Err ==> *final(self) == *old(self),
            r is Ok ==> {
                &&& final(self).admin == Some(admin)
                &&& final(self).pool_wasm_hash == pool_wasm_hash
                &&& final(self).fee_tiers@ == default_fee_tiers()
                &&& final(self).pools@ == old(self).pools@
                &&& final(self).fee_recipient is None
            },
    {
        if self.admin.is_some() {
            return Err(FactoryError::AlreadyInitialized);
        }
        if *caller != admin {
            return Err(FactoryError::Unauthorized);
        }
        self.admin = Some(admin);
        self.pool_wasm_hash = pool_wasm_hash;
        self.fee_tiers.insert(500, 10);
        self.fee_tiers.insert(3000, 60);
        self.fee_tiers.insert(10000, 200);
        Ok(())
    }

    /// The index of the pool of an ordered pair at a fee, or the number
    /// of pools where there is none.
    fn find_pool(&self, token0: &Address, token1: &Address, fee: u32) -> (r: usize)
        ensures
            r as int == pool_index(self.pools@, *token0, *token1, fee, self.pools@.len() as int),
            r <= self.pools@.len(),
    {
        let mut i: usize = 0;
        while i < self.pools.len()
            invariant
                0 <= i <= self.pools@.len(),
                forall|j: int|
                    0 <= j < i ==> !(self.pools@[j].token0 == *token0 && self.pools@[j].token1
                        == *token1 && self.pools@[j].fee == fee),
            decreases self.pools@.len() - i,
        {
            if self.pools[i].token0 == *token0 && self.pools[i].token1 == *token1
                && self.pools[i].fee == fee {
                proof {
                    lemma_pool_index_is(
                        self.pools@,
                        *token0,
                        *token1,
                        fee,
                        self.pools@.len() as int,
                        i as int,
                    );
                }
                return i;
            }
            i = i + 1;
        }
        proof {
            lemma_pool_index_is(
                self.pools@,
                *token0,
                *token1,
                fee,
                self.pools@.len() as int,
                i as int,
            );
        }
        i
    }

    /// Enters a new pool for a pair of tokens at a fee into the
    /// directory, and returns its record, with the tokens in order.
    /// The pair must not have a pool at the fee yet, and the fee has to
    /// be enabled.
    pub fn create_pool(&mut self, token_a: Address, token_b: Address, fee: u32, pool: Address) -> (r:
        Result<PoolRecord, FactoryError>)
        requires
            old(self).wf(),
        ensures
            final(self).wf(),
            r == (if token_a == token_b {
                Err::<PoolRecord, FactoryError>(FactoryError::IdenticalTokens)
            } else if pool_of(old(self).pools@, token_a, token_b, fee) is Some {
                Err(FactoryError::PoolAlreadyExists)
            } else if tick_spacing_of(old(self).fee_tiers@, fee) == 0 {
                Err(FactoryError::FeeNotEnabled)
            } else if old(self).pools@.len() >= u32::MAX {
                Err(FactoryError::DirectoryFull)
            } else {
                Ok(
                    PoolRecord {
                        token0: sorted_pair(token_a, token_b).0,
                        token1: sorted_pair(token_a, token_b).1,
                        fee,
                        pool,
                    },
                )
            }),
            r is Err ==> *final(self) == *old(self),
            r is Ok ==> {
                &&& final(self).pools@ == old(self).pools@.push(r->Ok_0)
                &&& pool_of(final(self).pools@, token_a, token_b, fee) == Some(pool)
                &&& final(self).admin == old(self).admin
                &&& final(self).pool_wasm_hash == old(self).pool_wasm_hash
                &&& final(self).fee_tiers == old(self).fee_tiers
                &&& final(self).fee_recipient == old(self).fee_recipient
            },
    {
        let (token0, token1) = sort_tokens(token_a, token_b);
        if token0 == token1 {
            return Err(FactoryError::IdenticalTokens);
        }
        proof {
            token_a.lemma_total_order(&token_b);
        }
        if self.find_pool(&token0, &token1, fee) < self.pools.len() {
            return Err(FactoryError::PoolAlreadyExists);
        }
        if self.get_fee_tick_spacing(fee) == 0 {
            return Err(FactoryError::FeeNotEnabled);
        }
        if self.pools.len() >= u32::MAX as usize {
            return Err(FactoryError::DirectoryFull);
        }
        let record = PoolRecord { token0, token1, fee, pool };
        proof {
            lemma_pool_index_none(self.pools@, token0, token1, fee, self.pools@.len() as int);
        }
        self.pools.push(record);
        proof {
            lemma_pool_index_is(
                self.pools@,
                token0,
                token1,
                fee,
                self.pools@.len() as int,
                self.pools@.len() - 1,
            );
        }
        Ok(record)
    }

    /// The pool of a pair of tokens at a fee, whichever way round the
    /// pair is given.
    pub fn get_pool(&self, token_a: Address, token_b: Address, fee: u32) -> (r: Option<Address>)
        ensures
            r == pool_of(self.pools@, token_a, token_b, fee),
    {
        let (token0, token1) = sort_tokens(token_a, token_b);
        let i = self.find_pool(&token0, &token1, fee);
        if i < self.pools.len() {
            Some(self.pools[i].pool)
        } else {
            None
        }
    }

    /// Enables a fee with a tick spacing. Only the administrator may do
    /// so. The fee has to be under one million, the tick spacing between
    /// 1 and 16384, and the fee must not be enabled yet.
    pub fn enable_fee_amount(&mut self, caller: &Address, fee: u32, tick_spacing: i32) -> (r:
        Result<(), FactoryError>)
        requires
            old(self).wf(),
        ensures
            final(self).wf(),
            r == (if old(self).admin is None {
                Err::<(), FactoryError>(FactoryError::NotInitialized)
            } else if old(self).admin != Some(*caller) {
                Err(FactoryError::Unauthorized)
            } else if tick_spacing <= 0 || tick_spacing > MAX_TICK_SPACING {
                Err(FactoryError::InvalidTickSpacing)
            } else if fee >= FEE_DENOMINATOR {
                Err(FactoryError::FeeTooHigh)
            } else if old(self).fee_tiers@.contains_key(fee) {
                Err(FactoryError::FeeAlreadyEnabled)
            } else {
                Ok(())
            }),
            r is Err ==> *final(self) == *old(self),
            r is Ok ==> {
                &&& final(self).fee_tiers@ == old(self).fee_tiers@.insert(fee, tick_spacing)
                &&& final(self).admin == old(self).admin
                &&& final(self).pool_wasm_hash == old(self).pool_wasm_hash
                &&& final(self).pools == old(self).pools
                &&& final(self).fee_recipient == old(self).fee_recipient
            },
    {
        match self.admin {
            None => {
                return Err(FactoryError::NotInitialized);
            },
            Some(admin) => {
                if admin != *caller {
                    return Err(FactoryError::Unauthorized);
                }
            },
        }
        if tick_spacing <= 0 || tick_spacing > MAX_TICK_SPACING {
            return Err(FactoryError::InvalidTickSpacing);
        }
        if fee >= FEE_DENOMINATOR {
            return Err(FactoryError::FeeTooHigh);
        }
        if self.fee_tiers.contains_key(&fee) {
            return Err(FactoryError::FeeAlreadyEnabled);
        }
        self.fee_tiers.insert(fee, tick_spacing);
        Ok(())
    }

    /// The tick spacing of a fee; zero for a fee that is not enabled.
    pub fn get_fee_tick_spacing(&self, fee: u32) -> (r: i32)
        ensures
            r == tick_spacing_of(self.fee_tiers@, fee),
    {
        match self.fee_tiers.get(&fee) {
            Some(tick_spacing) => *tick_spacing,
            None => 0,
        }
    }

    /// Names the recipient of protocol fees. Only the administrator may
    /// do so.
    pub fn set_fee_recipient(&mut self, caller: &Address, recipient: Address) -> (r: Result<
        (),
        FactoryError,
    >)
        requires
            old(self).wf(),
        ensures
            final(self).wf(),
            r == (if old(self).admin is None {
                Err::<(), FactoryError>(FactoryError::NotInitialized)
            } else if old(self).admin != Some(*caller) {
                Err(FactoryError::Unauthorized)
            } else {
                Ok(())
            }),
            r is Err ==> *final(self) == *old(self),
            r is Ok ==> {
                &&& final(self).fee_recipient == Some(recipient)
                &&& final(self).admin == old(self).admin
                &&& final(self).pool_wasm_hash == old(self).pool_wasm_hash
                &&& final(self).pools == old(self).pools
                &&& final(self).fee_tiers == old(self).fee_tiers
            },
    {
        match self.admin {
            None => {
                return Err(FactoryError::NotInitialized);
            },
            Some(admin) => {
                if admin != *caller {
                    return Err(FactoryError::Unauthorized);
                }
            },
        }
        self.fee_recipient = Some(recipient);
        Ok(())
    }

    /// The recipient of protocol fees, if one was named.
    pub fn get_fee_recipient(&self) -> (r: Option<Address>)
        ensures
            r == self.fee_recipient,
    {
        self.fee_recipient
    }

    /// The number of pools in the directory.
    pub fn get_pool_count(&self) -> (r: u32)
        requires
            self.wf(),
        ensures
            r as int == self.pools@.len(),
    {
        self.pools.len() as u32
    }

    /// The pool at an index of the directory, in the order of creation.
    pub fn get_pool_at(&self, index: u32) -> (r: Option<Address>)
        ensures
            r == (if index < self.pools@.len() {
                Some(self.pools@[index as int].pool)
            } else {
                None
            }),
    {
        if (index as usize) < self.pools.len() {
            Some(self.pools[index as usize].pool)
        } else {
            None
        }
    }

    /// The pools of the directory from `start_index` on: at most
    /// `limit` of them, and never more than `MAX_PAGE_SIZE`.
    pub fn get_pools_paginated(&self, start_index: u32, limit: u32) -> (r: Vec<Address>)
        requires
            self.wf(),
        ensures
            r@ == page_of(
                self.pools@,
                start_index as int,
                page_end(start_index, limit, self.pools@.len() as int),
            ),
            r@.len() <= MAX_PAGE_SIZE,
    {
        let safe_limit: usize = if limit > MAX_PAGE_SIZE {
            MAX_PAGE_SIZE as usize
        } else {
            limit as usize
        };
        let count: usize = self.pools.len();
        let start: usize = start_index as usize;
        let mut pools: Vec<Address> = Vec::new();
        if start >= count {
            return pools;
        }
        let end: usize = if safe_limit > count - start {
            count
        } else {
            start + safe_limit
        };
        let mut i: usize = start;
        while i < end
            invariant
                start <= i <= end <= self.pools@.len(),
                pools@ == page_of(self.pools@, start as int, i as int),
            decreases end - i,
        {
            pools.push(self.pools[i].pool);
            proof {
                assert(pools@ =~= page_of(self.pools@, start as int, i + 1));
            }
            i = i + 1;
        }
        pools
    }

    /// The first pools of the directory, up to `MAX_PAGE_SIZE` of them.
    pub fn get_all_pools(&self) -> (r: Vec<Address>)
        requires
            self.wf(),
        ensures
            r@ == page_of(self.pools@, 0, page_end(0, MAX_PAGE_SIZE, self.pools@.len() as int)),
    {
        self.get_pools_paginated(0, MAX_PAGE_SIZE)
    }

    /// The administrator of the factory.
    pub fn get_admin(&self) -> (r: Result<Address, FactoryError>)
        ensures
            r == (match self.admin {
                Some(admin) => Ok::<Address, FactoryError>(admin),
                None => Err(FactoryError::NotInitialized),
            }),
    {
        match self.admin {
            Some(admin) => Ok(admin),
            None => Err(FactoryError::NotInitialized),
        }
    }

    /// The code of the pools that the factory creates.
    pub fn get_pool_wasm_hash(&self) -> (r: Result<[u8; 32], FactoryError>)
        ensures
            r == (match self.admin {
                Some(_) => Ok::<[u8; 32], FactoryError>(self.pool_wasm_hash),
                None => Err(FactoryError::NotInitialized),
            }),
    {
        match self.admin {
            Some(_) => Ok(self.pool_wasm_hash),
            None => Err(FactoryError::NotInitialized),
        }
    }
}

} // verus!
