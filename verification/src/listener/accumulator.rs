use crate::address::{address_checksum, Address};
use crate::address_map::{has_key, key_index, keys_unique, lemma_entry_in_map, AddressMap};
use crate::client::block::Block;
use crate::db::models::{is_candle_of, lemma_candle_bounds, price_views, NewPoolPrice};
use crate::decimal::{value_le, Decimal, DecimalView};
use crate::error::pump::PumpError;
use std::collections::HashMap;
use vstd::prelude::*;

verus! {

/// The prices that pools showed during one block, pool by pool in the order
/// in which the pools first showed one.
#[derive(Debug)]
pub struct BlockPrices {
    pub block: Block,
    pub pools: AddressMap<Vec<Decimal>>,
}

/// The prices that go into a candle: the close carried over from the block
/// before, if there is one, and then the prices seen during the block.
pub open spec fn candle_input(
    carried: Option<DecimalView>,
    samples: Seq<DecimalView>,
) -> Seq<DecimalView> {
    match carried {
        Some(open) => seq![open] + samples,
        None => samples,
    }
}

/// Collects the prices of each pool block by block, and holds the close of
/// each flushed candle for the candle of the next block to open with.
pub struct CandleAccumulator {
    pub prices: HashMap<u64, BlockPrices>,
    pub opening_prices: HashMap<u64, AddressMap<Decimal>>,
}

impl CandleAccumulator {
    /// Every block stands under its own number, no pool stands twice within
    /// a block, and every pool that stands within a block has a price there.
    pub open spec fn wf(&self) -> bool {
        &&& forall|n: u64| #[trigger]
            self.prices@.contains_key(n) ==> {
                &&& self.prices@[n].block.number == n
                &&& self.prices@[n].pools.wf()
                &&& forall|i: int|
                    0 <= i < self.prices@[n].pools.entries@.len() ==> (
                    #[trigger] self.prices@[n].pools.entries@[i]).1@.len() > 0
            }
        &&& forall|n: u64| #[trigger]
            self.opening_prices@.contains_key(n) ==> self.opening_prices@[n].wf()
    }

    /// The pools that showed a price during block `number`, each with its
    /// prices, in the order in which the pools first showed one.
    pub open spec fn pools_of(&self, number: u64) -> Seq<(Address, Vec<Decimal>)> {
        if self.prices@.contains_key(number) {
            self.prices@[number].pools.entries@
        } else {
            Seq::empty()
        }
    }

    /// The pools that showed a price during block `number`, in the order in
    /// which they first showed one.
    pub open spec fn pool_order(&self, number: u64) -> Seq<Address> {
        self.pools_of(number).map_values(|entry: (Address, Vec<Decimal>)| entry.0)
    }

    /// The prices that `pool` showed during block `number`, in the order in
    /// which they were recorded.
    pub open spec fn samples(&self, number: u64, pool: Address) -> Seq<DecimalView> {
        if has_key(self.pools_of(number), pool) {
            price_views(self.pools_of(number)[key_index(self.pools_of(number), pool)].1@)
        } else {
            Seq::empty()
        }
    }

    /// The close that the candle of `pool` for block `number` is to open
    /// with, if one is held.
    pub open spec fn opening(&self, number: u64, pool: Address) -> Option<DecimalView> {
        if self.opening_prices@.contains_key(number) && self.opening_prices@[number].contains(
            pool,
        ) {
            Some(self.opening_prices@[number].value(pool)@)
        } else {
            None
        }
    }

    /// An accumulator that holds nothing.
    pub fn new() -> (r: CandleAccumulator)
        ensures
            r.wf(),
            forall|n: u64, p: Address| r.samples(n, p).len() == 0 && r.opening(n, p).is_none(),
            forall|n: u64| r.pools_of(n).len() == 0,
    {
        CandleAccumulator { prices: HashMap::new(), opening_prices: HashMap::new() }
    }

    /// Adds `price` behind the prices that `pool` showed during `block`. A
    /// pool that shows its first price of the block goes behind the pools
    /// that showed one before. Nothing else changes: not the prices of
    /// another pool or another block, and no carried close.
    pub fn record(&mut self, block: Block, pool: Address, price: Decimal)
        requires
            old(self).wf(),
        ensures
            final(self).wf(),
            final(self).pool_order(block.number) == if has_key(
                old(self).pools_of(block.number),
                pool,
            ) {
                old(self).pool_order(block.number)
            } else {
                old(self).pool_order(block.number).push(pool)
            },
            final(self).samples(block.number, pool) == old(self).samples(block.number, pool).push(
                price@,
            ),
            forall|n: u64, p: Address|
                n != block.number || p != pool ==> final(self).samples(n, p) == old(self).samples(
                    n,
                    p,
                ),
            forall|n: u64| n != block.number ==> final(self).pools_of(n) == old(self).pools_of(n),
            final(self).opening_prices@ == old(self).opening_prices@,
    {
        let ghost before = self.pools_of(block.number);
        let mut held = match self.prices.remove(&block.number) {
            Some(held) => held,
            None => BlockPrices { block, pools: AddressMap::new() },
        };
        assert(held.pools.entries@ == before);
        match held.pools.position(&pool) {
            Some(i) => {
                let ghost m0 = held.pools;
                let mut list = held.pools.replace_at(i, Vec::new());
                let ghost m1 = held.pools;
                let ghost earlier = list@;
                list.push(price);
                let _ = held.pools.replace_at(i, list);
                proof {
                    let m2 = held.pools;
                    let after = held.pools.entries@;
                    assert(after.map_values(|entry: (Address, Vec<Decimal>)| entry.0)
                        =~= before.map_values(|entry: (Address, Vec<Decimal>)| entry.0));
                    lemma_entry_in_map(before, i as int);
                    lemma_entry_in_map(m1.entries@, i as int);
                    lemma_entry_in_map(after, i as int);
                    assert(price_views(earlier.push(price)) =~= price_views(earlier).push(price@));
                    assert forall|p: Address| p != pool implies (has_key(after, p) == has_key(
                        before,
                        p,
                    )) && (has_key(before, p) ==> after[key_index(after, p)].1 == before[key_index(
                        before,
                        p,
                    )].1) by {
                        assert(m1.contains(p) == m0.contains(p));
                        assert(m2.contains(p) == m1.contains(p));
                        if m0.contains(p) {
                            assert(m1.value(p) == m0.value(p));
                            assert(m2.value(p) == m1.value(p));
                        }
                    }
                    assert forall|j: int| 0 <= j < after.len() implies (#[trigger] after[j]).1@.len()
                        > 0 by {
                        if j != i {
                            assert(m1.entries@[j] == before[j]);
                            assert(after[j] == m1.entries@[j]);
                        }
                    }
                }
            },
            None => {
                let mut list: Vec<Decimal> = Vec::new();
                list.push(price);
                proof {
                    assert(price_views(list@) =~= Seq::<DecimalView>::empty().push(price@));
                }
                let ghost m0 = held.pools;
                let _ = held.pools.insert(pool, list);
                proof {
                    let m1 = held.pools;
                    let after = held.pools.entries@;
                    assert(after.map_values(|entry: (Address, Vec<Decimal>)| entry.0)
                        =~= before.map_values(|entry: (Address, Vec<Decimal>)| entry.0).push(pool));
                    lemma_entry_in_map(after, before.len() as int);
                    assert forall|p: Address| p != pool implies (has_key(after, p) == has_key(
                        before,
                        p,
                    )) && (has_key(before, p) ==> after[key_index(after, p)].1 == before[key_index(
                        before,
                        p,
                    )].1) by {
                        assert(m1.contains(p) == m0.contains(p));
                        if m0.contains(p) {
                            assert(m1.value(p) == m0.value(p));
                        }
                    }
                    assert forall|j: int| 0 <= j < after.len() implies (#[trigger] after[j]).1@.len()
                        > 0 by {
                        if j < before.len() {
                            assert(after[j] == before[j]);
                        }
                    }
                }
            },
        }
        let ghost after = held.pools.entries@;
        self.prices.insert(block.number, held);
        proof {
            assert(self.pools_of(block.number) == after);
            assert forall|n: u64, p: Address| n != block.number || p != pool implies self.samples(
                n,
                p,
            ) == old(self).samples(n, p) by {
                if n != block.number {
                    assert(self.pools_of(n) == old(self).pools_of(n));
                }
            }
        }
    }

    /// Takes out the close that the candle of `pool` for block `number` is to
    /// open with, if one is held.
    fn take_opening(&mut self, number: u64, pool: &Address) -> (r: Option<Decimal>)
        requires
            old(self).wf(),
        ensures
            final(self).wf(),
            final(self).prices@ == old(self).prices@,
            match r {
                Some(open) => old(self).opening(number, *pool) == Some(open@),
                None => old(self).opening(number, *pool).is_none(),
            },
            final(self).opening(number, *pool).is_none(),
            forall|n: u64, p: Address|
                n != number || p != *pool ==> final(self).opening(n, p) == old(self).opening(n, p),
    {
        match self.opening_prices.remove(&number) {
            Some(held) => {
                let mut held = held;
                let r = held.remove(pool);
                self.opening_prices.insert(number, held);
                r
            },
            None => None,
        }
    }

    /// Holds `close` for the candle of `pool` for block `number` to open
    /// with, in place of what was held for it.
    fn put_opening(&mut self, number: u64, pool: Address, close: Decimal)
        requires
            old(self).wf(),
        ensures
            final(self).wf(),
            final(self).prices@ == old(self).prices@,
            final(self).opening(number, pool) == Some(close@),
            forall|n: u64, p: Address|
                n != number || p != pool ==> final(self).opening(n, p) == old(self).opening(n, p),
    {
        let mut held = match self.opening_prices.remove(&number) {
            Some(held) => held,
            None => AddressMap::new(),
        };
        let _ = held.insert(pool, close);
        self.opening_prices.insert(number, held);
    }

    /// What making the candle of `lp_token` for `block` out of `prices`
    /// comes to, with `old` the accumulator before, `self` the accumulator
    /// after and `r` the result: the candle is made of the carried close, if
    /// one was held, and the prices; the carried close is used up, and the
    /// new close is held for the block after. With neither a carried close
    /// nor a price there is no candle, and no held close changes.
    pub open spec fn candle_made(
        &self,
        old: &CandleAccumulator,
        lp_token: Address,
        prices: Seq<Decimal>,
        block: Block,
        r: Result<NewPoolPrice, PumpError>,
    ) -> bool {
        match r {
            Ok(candle) => {
                &&& is_candle_of(
                    candle_input(old.opening(block.number, lp_token), price_views(prices)),
                    candle.open@,
                    candle.high@,
                    candle.low@,
                    candle.close@,
                )
                &&& candle.time == block.timestamp
                &&& candle.pool@ == address_checksum(lp_token.bytes@)
                &&& self.opening(block.number, lp_token).is_none()
                &&& self.opening((block.number + 1) as u64, lp_token) == Some(candle.close@)
                &&& forall|n: u64, p: Address|
                    p != lp_token || (n != block.number && n != block.number + 1)
                        ==> self.opening(n, p) == old.opening(n, p)
            },
            Err(e) => {
                &&& candle_input(old.opening(block.number, lp_token), price_views(prices)).len()
                    == 0
                &&& e == PumpError::no_prices_spec(block.number, lp_token)
                &&& forall|n: u64, p: Address| self.opening(n, p) == old.opening(n, p)
            },
        }
    }

    /// Makes the candle of `lp_token` for `block` out of `prices`, opening
    /// with the close carried over from the block before where one is held,
    /// and holds the new close for the block after. The carried close is
    /// used up. With neither a carried close nor a price there is no candle,
    /// and nothing changes.
    pub fn flush_candle(&mut self, lp_token: Address, prices: Vec<Decimal>, block: Block) -> (r:
        Result<NewPoolPrice, PumpError>)
        requires
            old(self).wf(),
            block.number < u64::MAX,
        ensures
            final(self).wf(),
            final(self).prices@ == old(self).prices@,
            final(self).candle_made(old(self), lp_token, prices@, block, r),
    {
        let mut prices = prices;
        let ghost seen = price_views(prices@);
        let ghost carried = self.opening(block.number, lp_token);
        match self.take_opening(block.number, &lp_token) {
            Some(open) => {
                prices.insert(0, open);
                assert(price_views(prices@) =~= candle_input(carried, seen));
            },
            None => {},
        }
        let price = match NewPoolPrice::try_new(&lp_token, block, &prices) {
            Ok(price) => price,
            Err(e) => {
                return Err(e);
            },
        };
        // the close of block N opens block N + 1
        let close = price.close.clone();
        self.put_opening(block.number + 1, lp_token, close);
        Ok(price)
    }

    /// What the candle of one pool for block `target` has to be, given what
    /// the accumulator held before the flush: it is made of the carried
    /// close, if one was held, and the prices of the pool, at the time of the
    /// block.
    pub open spec fn is_flushed_candle(
        &self,
        target: u64,
        entry: (Address, Vec<Decimal>),
        candle: NewPoolPrice,
    ) -> bool {
        &&& is_candle_of(
            candle_input(self.opening(target, entry.0), price_views(entry.1@)),
            candle.open@,
            candle.high@,
            candle.low@,
            candle.close@,
        )
        &&& candle.time == self.prices@[target].block.timestamp
        &&& candle.pool@ == address_checksum(entry.0.bytes@)
    }

    /// What a flush comes to, with `old` the accumulator before, `self` the
    /// accumulator after and `r` the candles.
    pub open spec fn flushed_from(
        &self,
        old: &CandleAccumulator,
        new_block_number: u64,
        confirmations: u64,
        r: Seq<NewPoolPrice>,
    ) -> bool {
        &&& new_block_number < confirmations ==> {
            &&& r.len() == 0
            &&& self.prices@ == old.prices@
            &&& self.opening_prices@ == old.opening_prices@
        }
        &&& new_block_number >= confirmations ==> {
            let target = (new_block_number - confirmations) as u64;
            let flushed = old.pools_of(target);
            &&& r.len() == flushed.len()
            &&& forall|i: int|
                0 <= i < flushed.len() ==> old.is_flushed_candle(
                    target,
                    flushed[i],
                    #[trigger] r[i],
                )
            &&& self.pools_of(target).len() == 0
            &&& forall|n: u64| n != target ==> self.pools_of(n) == old.pools_of(n)
            &&& forall|i: int|
                0 <= i < flushed.len() ==> self.opening(
                    (target + 1) as u64,
                    flushed[i].0,
                ) == Some((#[trigger] r[i]).close@)
            &&& forall|n: u64, p: Address|
                (n != target && n != target + 1) || !has_key(flushed, p)
                    ==> self.opening(n, p) == old.opening(n, p)
        }
    }

    /// Takes note of block `new_block_number` and flushes the block that lies
    /// `confirmations` blocks before it: every pool that showed a price
    /// during that block gets its candle, in the order in which the pools
    /// first showed one, the close of each candle is held for the block
    /// after, and the block's prices are dropped. Other blocks keep their
    /// prices. Where no block lies that far back, nothing happens.
    pub fn confirm_and_flush(&mut self, new_block_number: u64, confirmations: u64) -> (r: Vec<
        NewPoolPrice,
    >)
        requires
            old(self).wf(),
            confirmations >= 1 || new_block_number < u64::MAX,
        ensures
            final(self).wf(),
            final(self).flushed_from(old(self), new_block_number, confirmations, r@),
    {
        let mut candles: Vec<NewPoolPrice> = Vec::new();
        if new_block_number < confirmations {
            return candles;
        }
        let target: u64 = new_block_number - confirmations;
        let held = match self.prices.remove(&target) {
            Some(held) => held,
            None => {
                return candles;
            },
        };
        let confirmed = held.block;
        let mut entries = held.pools.entries;
        let ghost all = entries@;
        let ghost before = *old(self);
        let mut done: usize = 0;
        let total = entries.len();
        while entries.len() > 0
            invariant
                self.wf(),
                before.wf(),
                before.prices@.contains_key(target),
                before.pools_of(target) == all,
                self.prices@ == before.prices@.remove(target),
                confirmed == before.prices@[target].block,
                confirmed.number == target,
                target < u64::MAX,
                keys_unique(all),
                forall|j: int| 0 <= j < all.len() ==> (#[trigger] all[j]).1@.len() > 0,
                total == all.len(),
                done + entries@.len() == total,
                entries@ == all.skip(done as int),
                candles@.len() == done,
                forall|j: int|
                    0 <= j < done ==> before.is_flushed_candle(target, all[j], #[trigger] candles@[j]),
                forall|j: int|
                    0 <= j < done ==> self.opening((target + 1) as u64, all[j].0) == Some(
                        (#[trigger] candles@[j]).close@,
                    ),
                forall|n: u64, p: Address|
                    (n != target && n != target + 1) || (forall|j: int|
                        0 <= j < done ==> (#[trigger] all[j]).0 != p) ==> self.opening(n, p)
                        == before.opening(n, p),
            decreases entries@.len(),
        {
            let entry = entries.remove(0);
            let pool = entry.0;
            let prices = entry.1;
            proof {
                assert(entry == all[done as int]);
                assert(entries@ =~= all.skip(done + 1));
                assert forall|j: int| 0 <= j < done implies (#[trigger] all[j]).0 != pool by {
                    assert(all[j].0 != all[done as int].0);
                }
                assert(self.opening(target, pool) == before.opening(target, pool));
            }
            let ghost earlier = *self;
            let made = self.flush_candle(pool, prices, confirmed);
            // a pool stands in a block only with a price, so there is a candle
            assert(made.is_ok()) by {
                assert(price_views(all[done as int].1@).len() > 0);
            }
            match made {
                Ok(candle) => {
                    candles.push(candle);
                    proof {
                        assert forall|j: int| 0 <= j < done + 1 implies self.opening(
                            (target + 1) as u64,
                            all[j].0,
                        ) == Some((#[trigger] candles@[j]).close@) by {
                            if j < done {
                                assert(all[j].0 != all[done as int].0);
                                assert(self.opening((target + 1) as u64, all[j].0)
                                    == earlier.opening((target + 1) as u64, all[j].0));
                            }
                        }
                        assert forall|n: u64, p: Address|
                            (n != target && n != target + 1) || (forall|j: int|
                                0 <= j < done + 1 ==> (#[trigger] all[j]).0 != p) implies self.opening(
                            n,
                            p,
                        ) == before.opening(n, p) by {
                            if !(n != target && n != target + 1) {
                                assert(all[done as int].0 != p);
                                assert forall|j: int| 0 <= j < done implies (#[trigger] all[j]).0
                                    != p by {}
                            }
                            assert(self.opening(n, p) == earlier.opening(n, p));
                        }
                    }
                },
                Err(_) => {},
            }
            done += 1;
        }
        proof {
            assert forall|n: u64, p: Address|
                (n != target && n != target + 1) || !has_key(all, p) implies self.opening(n, p)
                == before.opening(n, p) by {
                if !has_key(all, p) {
                    assert forall|j: int| 0 <= j < done implies (#[trigger] all[j]).0 != p by {}
                }
            }
        }
        candles
    }

    /// In every candle that a flush hands out, the opening and the closing
    /// price lie between the low and the high, whatever prices were
    /// recorded.
    pub proof fn lemma_flushed_candle_bounds(
        &self,
        old: &CandleAccumulator,
        new_block_number: u64,
        confirmations: u64,
        candles: Seq<NewPoolPrice>,
        i: int,
    )
        requires
            self.flushed_from(old, new_block_number, confirmations, candles),
            0 <= i < candles.len(),
        ensures
            value_le(candles[i].low@, candles[i].open@),
            value_le(candles[i].open@, candles[i].high@),
            value_le(candles[i].low@, candles[i].close@),
            value_le(candles[i].close@, candles[i].high@),
    {
        let target = (new_block_number - confirmations) as u64;
        let entry = old.pools_of(target)[i];
        assert(old.is_flushed_candle(target, entry, candles[i]));
        lemma_candle_bounds(
            candle_input(old.opening(target, entry.0), price_views(entry.1@)),
            candles[i].open@,
            candles[i].high@,
            candles[i].low@,
            candles[i].close@,
        );
    }

    /// The candle of a pool for one block opens at the close of its candle
    /// for the block before. `first` is the flush of block `number`, which
    /// leaves the accumulator `held`; `second` is the flush of the block
    /// after it, out of the accumulator `later`, in which the close that
    /// waits for the pool has not been touched: recording prices leaves it
    /// alone.
    pub proof fn lemma_open_is_last_close(
        start: &CandleAccumulator,
        held: &CandleAccumulator,
        later: &CandleAccumulator,
        end: &CandleAccumulator,
        number: u64,
        confirmations: u64,
        first: Seq<NewPoolPrice>,
        second: Seq<NewPoolPrice>,
        i: int,
        j: int,
    )
        requires
            number + 1 + confirmations <= u64::MAX,
            held.flushed_from(start, (number + confirmations) as u64, confirmations, first),
            end.flushed_from(later, (number + 1 + confirmations) as u64, confirmations, second),
            0 <= i < first.len(),
            0 <= j < second.len(),
            start.pools_of(number)[i].0 == later.pools_of((number + 1) as u64)[j].0,
            later.opening((number + 1) as u64, start.pools_of(number)[i].0) == held.opening(
                (number + 1) as u64,
                start.pools_of(number)[i].0,
            ),
        ensures
            second[j].open@ == first[i].close@,
    {
        let pool = start.pools_of(number)[i].0;
        let next = (number + 1) as u64;
        let entry = later.pools_of(next)[j];
        assert(held.opening(next, pool) == Some(first[i].close@));
        assert(later.is_flushed_candle(next, entry, second[j]));
    }

    /// With a confirmation depth of one, the header of block `number`
    /// flushes the candles of the block before it, one for each pool that
    /// showed a price during that block and no other, and leaves alone what
    /// has been recorded for block `number` itself.
    pub proof fn lemma_flush_lags_one_block(
        &self,
        old: &CandleAccumulator,
        number: u64,
        candles: Seq<NewPoolPrice>,
    )
        requires
            number >= 1,
            self.flushed_from(old, number, 1, candles),
        ensures
            candles.len() == old.pools_of((number - 1) as u64).len(),
            forall|i: int|
                0 <= i < candles.len() ==> (#[trigger] candles[i]).pool@ == address_checksum(
                    old.pools_of((number - 1) as u64)[i].0.bytes@,
                ),
            self.pools_of((number - 1) as u64).len() == 0,
            self.pools_of(number) == old.pools_of(number),
            forall|pool: Address| #[trigger] self.samples(number, pool) == old.samples(number, pool),
    {
        let target = (number - 1) as u64;
        let flushed = old.pools_of(target);
        assert forall|i: int| 0 <= i < candles.len() implies (#[trigger] candles[i]).pool@
            == address_checksum(old.pools_of((number - 1) as u64)[i].0.bytes@) by {
            assert(old.is_flushed_candle(target, flushed[i], candles[i]));
        }
    }
}

} // verus!
