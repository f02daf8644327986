//! The pool registry: keyed persistence for pools, as an explicit store
//! handle passed into every routing and query call. Its mathematical value
//! is the map from pool id to pool value.

use vstd::prelude::*;

verus! {

use std::collections::HashMap;

use crate::error::{OsmosisError, StdError};
use crate::pool::{Pool, PoolV};

broadcast use vstd::std_specs::hash::group_hash_axioms;

/// The registry of all pools, keyed by pool id.
pub struct PoolStore {
    pools: HashMap<u64, Pool>,
}

impl View for PoolStore {
    type V = Map<u64, PoolV>;

    closed spec fn view(&self) -> Map<u64, PoolV> {
        self.pools@.map_values(|p: Pool| p@)
    }
}

impl PoolStore {
    /// An empty registry.
    pub fn new() -> (r: PoolStore)
        ensures
            r@ == Map::<u64, PoolV>::empty(),
    {
        let r = PoolStore { pools: HashMap::new() };
        proof {
            assert(r@ =~= Map::<u64, PoolV>::empty());
        }
        r
    }

    /// Stores `pool` under `pool_id`, replacing any previously stored pool.
    pub fn save(&mut self, pool_id: u64, pool: Pool)
        ensures
            final(self)@ == old(self)@.insert(pool_id, pool@),
    {
        let ghost p = pool@;
        self.pools.insert(pool_id, pool);
        proof {
            assert(self@ =~= old(self)@.insert(pool_id, p));
        }
    }

    /// Loads a copy of the pool stored under `pool_id`; a missing id is
    /// reported as the store's `NotFound` error.
    pub fn load(&self, pool_id: u64) -> (r: Result<Pool, OsmosisError>)
        ensures
            match r {
                Ok(p) => self@.contains_key(pool_id) && p@ == self@[pool_id],
                Err(e) => {
                    &&& !self@.contains_key(pool_id)
                    &&& e == OsmosisError::Std(StdError::NotFound)
                },
            },
    {
        match self.pools.get(&pool_id) {
            Some(p) => Ok(p.clone()),
            None => Err(OsmosisError::Std(StdError::NotFound)),
        }
    }

    /// Whether a pool is stored under `pool_id`.
    pub fn contains(&self, pool_id: u64) -> (r: bool)
        ensures
            r == self@.contains_key(pool_id),
    {
        self.pools.contains_key(&pool_id)
    }
}

} // verus!
