use crate::address::{parsed_address, Address};
use crate::address_map::{key_index, AddressMap};
use crate::client::pool::{row_is_readable, Pool};
use crate::db::models;
use crate::error::pump::PumpError;
use vstd::prelude::*;

verus! {

/// The pools that the listener knows, by the address of their liquidity
/// token. A pool, once known, is never changed.
#[derive(Debug)]
pub struct PoolRegistry {
    pub pools: AddressMap<Pool>,
}

impl PoolRegistry {
    /// No key stands twice, and every pool stands under its own liquidity
    /// token.
    pub open spec fn wf(&self) -> bool {
        &&& self.pools.wf()
        &&& forall|i: int|
            0 <= i < self.pools.entries@.len() ==> (#[trigger] self.pools.entries@[i]).0
                == self.pools.entries@[i].1.lp_token
    }

    /// The registry holds what the first `count` of `rows` say: every one
    /// of them can be read, the registry knows the pools that they name and
    /// no other, and each pool as the last of its rows describes it.
    pub open spec fn holds_rows(&self, rows: Seq<models::Pool>, count: int) -> bool {
        &&& forall|i: int| 0 <= i < count ==> row_is_readable(#[trigger] rows[i])
        &&& forall|lp_token: Address| #[trigger]
            self.knows(lp_token) <==> names_pool(rows, count, lp_token)
        &&& forall|i: int, lp_token: Address|
            0 <= i < count && row_names(#[trigger] rows[i], lp_token) && is_last_row_of(
                rows,
                count,
                i,
            ) ==> row_describes(rows[i], #[trigger] self.pool_of(lp_token))
    }

    /// Whether the pool of `lp_token` is known.
    pub open spec fn knows(&self, lp_token: Address) -> bool {
        self.pools.contains(lp_token)
    }

    /// The known pool of `lp_token`.
    pub open spec fn pool_of(&self, lp_token: Address) -> Pool {
        self.pools.value(lp_token)
    }

    /// A registry that knows no pool.
    pub fn new() -> (r: PoolRegistry)
        ensures
            r.wf(),
            forall|lp_token: Address| !r.knows(lp_token),
    {
        PoolRegistry { pools: AddressMap::new() }
    }

    /// The pool of `lp_token`, if it is known.
    pub fn get(&self, lp_token: &Address) -> (r: Option<Pool>)
        requires
            self.wf(),
        ensures
            r.is_some() == self.knows(*lp_token),
            r.is_some() ==> r.unwrap() == self.pool_of(*lp_token) && r.unwrap().lp_token
                == *lp_token,
    {
        match self.pools.position(lp_token) {
            Some(i) => Some(self.pools.entries[i].1),
            None => None,
        }
    }

    /// Makes `pool` known under its liquidity token, in place of what was
    /// known under it, and says whether nothing was. Other pools stay as
    /// they are.
    pub fn register(&mut self, pool: Pool) -> (is_new: bool)
        requires
            old(self).wf(),
        ensures
            final(self).wf(),
            is_new == !old(self).knows(pool.lp_token),
            final(self).pools.entries@ == if old(self).knows(pool.lp_token) {
                old(self).pools.entries@.update(
                    key_index(old(self).pools.entries@, pool.lp_token),
                    (pool.lp_token, pool),
                )
            } else {
                old(self).pools.entries@.push((pool.lp_token, pool))
            },
            final(self).knows(pool.lp_token),
            final(self).pool_of(pool.lp_token) == pool,
            forall|other: Address|
                other != pool.lp_token ==> final(self).knows(other) == old(self).knows(other),
            forall|other: Address|
                other != pool.lp_token && old(self).knows(other) ==> final(self).pool_of(other)
                    == old(self).pool_of(other),
    {
        let held = self.pools.insert(pool.lp_token, pool);
        held.is_none()
    }

    /// The liquidity tokens of the known pools, in the order in which they
    /// became known.
    pub fn lp_tokens(&self) -> (r: Vec<Address>)
        ensures
            r@.len() == self.pools.entries@.len(),
            forall|i: int| 0 <= i < r@.len() ==> r@[i] == (#[trigger] self.pools.entries@[i]).0,
    {
        let mut tokens: Vec<Address> = Vec::new();
        let mut i: usize = 0;
        while i < self.pools.entries.len()
            invariant
                i <= self.pools.entries@.len(),
                tokens@.len() == i,
                forall|j: int| 0 <= j < i ==> tokens@[j] == (#[trigger] self.pools.entries@[j]).0,
            decreases self.pools.entries@.len() - i,
        {
            tokens.push(self.pools.entries[i].0);
            i += 1;
        }
        tokens
    }

    /// The registry of the pools that storage holds: it knows the pools of
    /// the rows and no other, each as its last row describes it. A row with
    /// an address that cannot be read fails the whole.
    pub fn from_rows(rows: Vec<models::Pool>) -> (r: Result<PoolRegistry, PumpError>)
        ensures
            match r {
                Ok(registry) => registry.wf() && registry.holds_rows(rows@, rows@.len() as int),
                Err(e) => e == PumpError::InvalidAddress && exists|i: int|
                    0 <= i < rows@.len() && !row_is_readable(#[trigger] rows@[i]),
            },
    {
        let mut registry = PoolRegistry::new();
        let ghost all = rows@;
        let mut left = rows;
        let mut done: usize = 0;
        let total = left.len();
        while left.len() > 0
            invariant
                registry.wf(),
                done + left@.len() == total,
                total == all.len(),
                all == rows@,
                left@ == all.skip(done as int),
                registry.holds_rows(all, done as int),
            decreases left@.len(),
        {
            let row = left.remove(0);
            assert(row == all[done as int]);
            let ghost before = registry;
            match Pool::try_from(row) {
                Ok(pool) => {
                    registry.register(pool);
                    proof {
                        assert forall|lp_token: Address| #[trigger]
                            registry.knows(lp_token) <==> names_pool(
                                all,
                                done + 1,
                                lp_token,
                            ) by {
                            if lp_token.bytes@ == pool.lp_token.bytes@ {
                                assert(lp_token.bytes =~= pool.lp_token.bytes);
                                assert(row_names(all[done as int], lp_token));
                            }
                            if before.knows(lp_token) {
                                let i = choose|i: int|
                                    0 <= i < done && row_names(#[trigger] all[i], lp_token);
                                assert(row_names(all[i], lp_token));
                            }
                            if names_pool(all, done + 1, lp_token) {
                                let i = choose|i: int|
                                    0 <= i < done + 1 && row_names(#[trigger] all[i], lp_token);
                                if i < done {
                                    assert(names_pool(all, done as int, lp_token));
                                }
                            }
                        }
                        assert forall|i: int, lp_token: Address|
                            0 <= i < done + 1 && row_names(#[trigger] all[i], lp_token)
                                && is_last_row_of(all, done + 1, i) implies row_describes(
                            all[i],
                            #[trigger] registry.pool_of(lp_token),
                        ) by {
                            if i == done {
                                assert(lp_token.bytes =~= pool.lp_token.bytes);
                            } else {
                                assert(parsed_address(all[done as int].address@)
                                    != parsed_address(all[i].address@));
                                assert(is_last_row_of(all, done as int, i));
                                assert(names_pool(all, done as int, lp_token));
                            }
                        }
                    }
                },
                Err(e) => {
                    assert(!row_is_readable(all[done as int]));
                    return Err(e);
                },
            }
            assert(left@ =~= all.skip(done + 1));
            done += 1;
        }
        Ok(registry)
    }
}

/// Whether `row` is a row of the pool `lp_token`.
pub open spec fn row_names(row: models::Pool, lp_token: Address) -> bool {
    parsed_address(row.address@) == Some(lp_token.bytes@)
}

/// Whether one of the first `count` rows is a row of the pool `lp_token`.
pub open spec fn names_pool(rows: Seq<models::Pool>, count: int, lp_token: Address) -> bool {
    exists|i: int| 0 <= i < count && row_names(#[trigger] rows[i], lp_token)
}

/// Whether none of the first `count` rows after row `i` is a row of the
/// same pool as row `i`.
pub open spec fn is_last_row_of(rows: Seq<models::Pool>, count: int, i: int) -> bool {
    forall|j: int|
        i < j < count ==> parsed_address((#[trigger] rows[j]).address@) != parsed_address(
            rows[i].address@,
        )
}

/// Whether `pool` is the pool that `row` describes.
pub open spec fn row_describes(row: models::Pool, pool: Pool) -> bool {
    &&& parsed_address(row.address@) == Some(pool.lp_token.bytes@)
    &&& parsed_address(row.token_0@) == Some(pool.token_0.bytes@)
    &&& parsed_address(row.token_1@) == Some(pool.token_1.bytes@)
}

} // verus!
