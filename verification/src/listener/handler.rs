use crate::abi::{address_of_word, word_at};
use crate::address::{address_checksum, hex_encode, hex_lower, Address};
use crate::client::block::Block;
use crate::client::pool::{
    flows_give_price, net_flow, swap_price_view, sync_price_view, ui_price_view, whole, Pool,
};
use crate::address_map::{has_key, AddressMap};
use crate::contract::pair::{swap_reads, sync_reads, Swap, Sync};
use crate::contract::pump::{
    coin_created_reads, coin_graduated_reads, deployed_to_dex_reads, wei_in_updated_reads,
    CoinCreated, CoinGraduated, DeployedToDex, WeiInUpdated,
};
use crate::contract::topics::{lemma_topics_differ, topic_of, EventKind};
use crate::db::models;
use crate::db::models::{NewPoolPrice, Trade};
use crate::decimal::{can_divide, Decimal, DecimalView};
use crate::error::pump::PumpError;
use crate::listener::accumulator::CandleAccumulator;
use crate::listener::log::{has_shape, shape_error, Log, RawLog};
use crate::listener::pending::{
    lemma_replay_order_all_for, PendingLogBuffer, PendingLogEntry, PendingView,
};
use crate::listener::registry::PoolRegistry;
use crate::uint::int_to_decimal;
use std::collections::HashMap;
use vstd::prelude::*;
use vstd::string::{StrSliceExecFns, StringExecFns};

verus! {

/// The number of later blocks that must have been seen before the candles of a
/// block are flushed.
pub const CONFIRMATIONS: u64 = 1;

/// What [`fmt_hex`] writes for `bytes`: `0x` and their hexadecimal digits
/// where these are six at most, and otherwise `0x`, the first four digits,
/// three dots and the last four digits.
pub open spec fn short_hex(bytes: Seq<u8>) -> Seq<char> {
    let hex = hex_lower(bytes);
    if hex.len() <= 6 {
        seq!['0', 'x'] + hex
    } else {
        seq!['0', 'x'] + hex.subrange(0, 4) + seq!['.', '.', '.'] + hex.subrange(
            hex.len() - 4,
            hex.len() as int,
        )
    }
}

/// Writes bytes in hexadecimal for a message, shortened in the middle where
/// they are more than three.
pub fn fmt_hex(value: &[u8]) -> (r: String)
    ensures
        r@ == short_hex(value@),
{
    let hex = hex_encode(value);
    let n = hex.as_str().unicode_len();
    let mut out = String::from_str("0x");
    proof {
        reveal_strlit("0x");
        reveal_strlit("...");
    }
    if n <= 6 {
        out.append(hex.as_str());
    } else {
        out.append(hex.as_str().substring_char(0, 4));
        out.append("...");
        out.append(hex.as_str().substring_char(n - 4, n));
    }
    out
}

/// What is known of the block of a log: the whole block where its header has
/// arrived, and only its number where it has not.
#[derive(Clone, Copy, Debug)]
pub enum BlockKind {
    Block(Block),
    NumberOnly(u64),
}

impl BlockKind {
    /// The number of the block.
    pub fn number(&self) -> (n: u64)
        ensures
            n == match *self {
                BlockKind::Block(block) => block.number,
                BlockKind::NumberOnly(number) => number,
            },
    {
        match self {
            BlockKind::Block(block) => block.number,
            BlockKind::NumberOnly(number) => *number,
        }
    }
}

/// Whether the subscription to the logs has to be made anew because the set of
/// addresses to watch has grown.
#[derive(Clone, Copy, Debug, PartialEq, Eq, Structural)]
pub enum Dispatch {
    Continue,
    RequiresResubscription,
}

/// Something for the driver to do on the chain or in storage. The effects of
/// one log are carried out in their order, and the rest are left where one
/// fails.
#[derive(Debug)]
pub enum Effect {
    /// Read the coin from the launch contract and store it as verified.
    VerifyCoin { coin_id: u32 },
    /// Store the total paid into a coin.
    UpdateWeiIn { coin_id: i64, total_wei_in: Decimal },
    /// Store that a coin has graduated.
    GraduateCoin { coin_id: i64 },
    /// Tell the launch contract to take a graduated coin to the exchange.
    DeployGraduated { coin_id: u32 },
    /// Store a pool, unless it is stored already.
    UpsertDeployedPool { pool: models::Pool },
    /// Store the pool of a coin.
    UpdateDeployedPool { coin_id: i64, pool: Address },
    /// Store a trade.
    AddTrade { trade: Trade },
}

/// What came of one log.
#[derive(Debug)]
pub struct Handled {
    pub dispatch: Dispatch,
    pub effects: Vec<Effect>,
}

/// What the chain answered when asked for the two tokens of a pool that the
/// listener did not know; nothing where it was not asked or did not answer.
pub type FetchedTokens = Option<(Address, Address)>;

/// The state of the listener: the pools it knows, the times of the blocks it
/// has seen, the logs that wait for their block, and the prices that wait to
/// become candles.
pub struct LogHandler {
    pub chain_id: i32,
    pub router: Address,
    pub weth: Address,
    pub confirmations: u64,
    pub accumulator: CandleAccumulator,
    pub pools: PoolRegistry,
    pub block_timestamps: HashMap<u64, i64>,
    pub pending_logs: PendingLogBuffer,
}

/// What is known of the block with this number, where the log has one.
pub open spec fn block_kind_of(
    timestamps: Map<u64, i64>,
    block_number: Option<u64>,
) -> Option<BlockKind> {
    match block_number {
        Some(number) => if timestamps.contains_key(number) {
            Some(BlockKind::Block(Block { number, timestamp: timestamps[number] }))
        } else {
            Some(BlockKind::NumberOnly(number))
        },
        None => None,
    }
}

/// Whether `address` stands in `list`.
pub fn holds(list: &Vec<Address>, address: &Address) -> (r: bool)
    ensures
        r == list@.contains(*address),
{
    let mut i: usize = 0;
    while i < list.len()
        invariant
            i <= list@.len(),
            forall|j: int| 0 <= j < i ==> list@[j] != *address,
        decreases list@.len() - i,
    {
        if list[i] == *address {
            return true;
        }
        i += 1;
    }
    false
}

impl Handled {
    /// Nothing to do, and no new address to watch.
    pub fn nothing() -> (r: Handled)
        ensures
            r.dispatch == Dispatch::Continue,
            r.effects@.len() == 0,
    {
        Handled { dispatch: Dispatch::Continue, effects: Vec::new() }
    }

    /// Whether nothing is to be done and no new address is to be watched.
    pub open spec fn is_nothing(&self) -> bool {
        self.dispatch == Dispatch::Continue && self.effects@.len() == 0
    }
}

impl LogHandler {
    /// The parts of the state are sound each for itself.
    pub open spec fn wf(&self) -> bool {
        &&& self.accumulator.wf()
        &&& self.pools.wf()
        &&& forall|n: u64| (#[trigger] self.pending_logs.waiting(n)).all_for(n)
    }

    /// The chain, the exchange and the reference asset stay what they are.
    pub open spec fn same_setting(&self, other: &LogHandler) -> bool {
        &&& self.chain_id == other.chain_id
        &&& self.router == other.router
        &&& self.weth == other.weth
        &&& self.confirmations == other.confirmations
    }

    /// Nothing but the waiting logs differs between the two states.
    pub open spec fn same_but_pending(&self, other: &LogHandler) -> bool {
        &&& self.same_setting(other)
        &&& self.accumulator == other.accumulator
        &&& self.pools == other.pools
        &&& self.block_timestamps == other.block_timestamps
    }

    /// Nothing but the known pools differs between the two states.
    pub open spec fn same_but_pools(&self, other: &LogHandler) -> bool {
        &&& self.same_setting(other)
        &&& self.accumulator == other.accumulator
        &&& self.block_timestamps == other.block_timestamps
        &&& self.pending_logs == other.pending_logs
    }

    /// The pool of `lp_token` after the listener has looked it up: the pool
    /// it knew, or else the pool of the tokens that the chain answered.
    pub open spec fn pool_after_lookup(&self, lp_token: Address, fetched: FetchedTokens) -> Option<
        Pool,
    > {
        if self.pools.knows(lp_token) {
            Some(self.pools.pool_of(lp_token))
        } else {
            match fetched {
                Some((token_0, token_1)) => Some(Pool { lp_token, token_0, token_1 }),
                None => None,
            }
        }
    }

    /// The known pools after `lp_token` has been looked up: a pool that the
    /// chain answered has become known, as the last of the known pools, and
    /// nothing else has changed.
    pub open spec fn pools_after_lookup(
        &self,
        old: &LogHandler,
        lp_token: Address,
        fetched: FetchedTokens,
    ) -> bool {
        &&& self.pools.wf()
        &&& self.pools.pools.entries@ == if old.pools.knows(lp_token) {
            old.pools.pools.entries@
        } else {
            match fetched {
                Some((token_0, token_1)) => old.pools.pools.entries@.push(
                    (lp_token, Pool { lp_token, token_0, token_1 }),
                ),
                None => old.pools.pools.entries@,
            }
        }
        &&& forall|other: Address|
            other != lp_token ==> self.pools.knows(other) == old.pools.knows(other)
        &&& forall|other: Address|
            other != lp_token && old.pools.knows(other) ==> self.pools.pool_of(other)
                == old.pools.pool_of(other)
        &&& match old.pool_after_lookup(lp_token, fetched) {
            Some(pool) => self.pools.knows(lp_token) && self.pools.pool_of(lp_token) == pool,
            None => self.pools == old.pools,
        }
    }

    /// A listener that has seen nothing yet and knows the given pools.
    pub fn new(chain_id: i32, router: Address, weth: Address, pools: PoolRegistry) -> (r:
        LogHandler)
        requires
            pools.wf(),
        ensures
            r.wf(),
            r.chain_id == chain_id,
            r.router == router,
            r.weth == weth,
            r.confirmations == CONFIRMATIONS,
            r.pools == pools,
            r.block_timestamps@ == Map::<u64, i64>::empty(),
            forall|n: u64| r.pending_logs.waiting(n) == crate::listener::pending::PendingView::empty(),
            forall|n: u64| r.accumulator.pools_of(n).len() == 0,
            forall|n: u64, p: Address| r.accumulator.opening(n, p).is_none(),
    {
        LogHandler {
            chain_id,
            router,
            weth,
            confirmations: CONFIRMATIONS,
            accumulator: CandleAccumulator::new(),
            pools,
            block_timestamps: HashMap::new(),
            pending_logs: PendingLogBuffer::new(),
        }
    }

    /// Finds the block of a log: the whole block where its header has
    /// arrived, its number alone where it has not. A log without a block
    /// number is an error.
    pub fn try_block<T>(&self, log: &Log<T>) -> (r: Result<BlockKind, PumpError>)
        ensures
            match r {
                Ok(kind) => block_kind_of(self.block_timestamps@, log.block_number) == Some(kind),
                Err(e) => log.block_number.is_none() && e == PumpError::no_block_number_spec(),
            },
    {
        match log.block_number {
            Some(number) => {
                let timestamp = self.block_timestamps.get(&number);
                match timestamp {
                    Some(timestamp) => Ok(BlockKind::Block(Block { number, timestamp: *timestamp })),
                    None => Ok(BlockKind::NumberOnly(number)),
                }
            },
            _ => Err(PumpError::no_block_number()),
        }
    }

    /// Looks a pool up: a known pool is given as it is known; an unknown one
    /// is made of the tokens that the chain answered and becomes known. With
    /// neither there is no pool.
    pub fn get_pool(&mut self, lp_token: Address, fetched: FetchedTokens) -> (r: Result<
        Pool,
        PumpError,
    >)
        requires
            old(self).wf(),
        ensures
            final(self).wf(),
            final(self).same_but_pools(old(self)),
            final(self).pools_after_lookup(old(self), lp_token, fetched),
            match r {
                Ok(pool) => old(self).pool_after_lookup(lp_token, fetched) == Some(pool)
                    && pool.lp_token == lp_token,
                Err(e) => old(self).pool_after_lookup(lp_token, fetched).is_none() && e
                    == PumpError::PairNotFound(lp_token),
            },
    {
        match self.pools.get(&lp_token) {
            Some(pair) => Ok(pair),
            None => {
                match fetched {
                    Some((token_0, token_1)) => {
                        let pool = Pool { lp_token, token_0, token_1 };
                        self.pools.register(pool);
                        Ok(pool)
                    },
                    None => Err(PumpError::PairNotFound(lp_token)),
                }
            },
        }
    }

    /// The liquidity tokens of the known pools: the addresses whose logs the
    /// listener has to watch.
    pub fn lp_tokens(&self) -> (r: Vec<Address>)
        ensures
            r@.len() == self.pools.pools.entries@.len(),
            forall|i: int|
                0 <= i < r@.len() ==> r@[i] == (#[trigger] self.pools.pools.entries@[i]).0,
    {
        self.pools.lp_tokens()
    }

    /// What taking up the creation of a coin comes to.
    pub open spec fn creation_handled(log: Log<CoinCreated>, r: Result<Handled, PumpError>) -> bool {
        &&& r.is_ok()
        &&& r.unwrap().dispatch == Dispatch::Continue
        &&& r.unwrap().effects@.len() == 1
        &&& r.unwrap().effects@[0] == (Effect::VerifyCoin { coin_id: log.data.coin_id })
    }

    /// What taking up the graduation of a coin comes to.
    pub open spec fn graduation_handled(
        log: Log<CoinGraduated>,
        r: Result<Handled, PumpError>,
    ) -> bool {
        match r {
            Ok(handled) => {
                &&& log.block_number.is_some()
                &&& handled.dispatch == Dispatch::Continue
                &&& handled.effects@.len() == 2
                &&& handled.effects@[0] == (Effect::GraduateCoin {
                    coin_id: log.data.coin_id as i64,
                })
                &&& handled.effects@[1] == (Effect::DeployGraduated { coin_id: log.data.coin_id })
            },
            Err(e) => log.block_number.is_none() && e == PumpError::no_block_number_spec(),
        }
    }

    /// Takes up the creation of a coin: the coin is to be read from the
    /// chain and stored as verified. The block of the log does not matter.
    pub fn handle_creation(&self, log: Log<CoinCreated>) -> (r: Result<Handled, PumpError>)
        ensures
            Self::creation_handled(log, r),
    {
        let mut effects: Vec<Effect> = Vec::new();
        effects.push(Effect::VerifyCoin { coin_id: log.data.coin_id });
        Ok(Handled { dispatch: Dispatch::Continue, effects })
    }

    /// Takes up the graduation of a coin: the coin is to be stored as
    /// graduated, and then the launch contract is to be told to take it to
    /// the exchange. A log without a block number is an error.
    pub fn handle_graduation(&self, log: Log<CoinGraduated>) -> (r: Result<Handled, PumpError>)
        ensures
            Self::graduation_handled(log, r),
    {
        let _block_number = match self.try_block(&log) {
            Ok(kind) => kind.number(),
            Err(e) => {
                return Err(e);
            },
        };
        let coin_id = log.data.coin_id;
        let mut effects: Vec<Effect> = Vec::new();
        effects.push(Effect::GraduateCoin { coin_id: coin_id as i64 });
        effects.push(Effect::DeployGraduated { coin_id });
        Ok(Handled { dispatch: Dispatch::Continue, effects })
    }

    /// What taking up a payment into a coin comes to, with `old` the state
    /// before, `self` the state after and `r` the result.
    pub open spec fn wei_in_updated_handled(
        &self,
        old: &LogHandler,
        log: Log<WeiInUpdated>,
        r: Result<Handled, PumpError>,
    ) -> bool {
        &&& self.same_but_pending(old)
        &&& match block_kind_of(old.block_timestamps@, log.block_number) {
            None => {
                &&& r.is_err()
                &&& r.unwrap_err() == PumpError::no_block_number_spec()
                &&& self.pending_logs == old.pending_logs
            },
            Some(BlockKind::NumberOnly(number)) => {
                &&& r.is_ok()
                &&& r.unwrap().is_nothing()
                &&& self.pending_logs.waiting(number) == old.pending_logs.waiting(number).with(
                    PendingLogEntry::WeiInUpdated(log),
                )
                &&& forall|other: u64|
                    other != number ==> self.pending_logs.waiting(other)
                        == old.pending_logs.waiting(other)
            },
            Some(BlockKind::Block(block)) => {
                &&& r.is_ok()
                &&& r.unwrap().dispatch == Dispatch::Continue
                &&& r.unwrap().effects@.len() == 1
                &&& r.unwrap().effects@[0] matches Effect::UpdateWeiIn { coin_id, total_wei_in }
                    && coin_id == log.data.coin_id as i64 && total_wei_in@ == whole(
                    log.data.total_wei_in@ as int,
                )
                &&& self.pending_logs == old.pending_logs
            },
        }
    }

    /// Takes up a payment into a coin. Where the header of the block has not
    /// arrived, the log is put aside; where it has, the new total is to be
    /// stored. A log without a block number is an error.
    pub fn handle_wei_in_updated(&mut self, log: Log<WeiInUpdated>) -> (r: Result<
        Handled,
        PumpError,
    >)
        requires
            old(self).wf(),
        ensures
            final(self).wf(),
            final(self).wei_in_updated_handled(old(self), log, r),
    {
        let _block = match self.try_block(&log) {
            Ok(BlockKind::Block(block)) => block,
            Ok(BlockKind::NumberOnly(number)) => {
                self.pending_logs.push(number, PendingLogEntry::WeiInUpdated(log));
                return Ok(Handled::nothing());
            },
            Err(e) => {
                return Err(e);
            },
        };
        let wei_in = int_to_decimal(&log.data.total_wei_in);
        let mut effects: Vec<Effect> = Vec::new();
        effects.push(Effect::UpdateWeiIn { coin_id: log.data.coin_id as i64, total_wei_in: wei_in });
        Ok(Handled { dispatch: Dispatch::Continue, effects })
    }

    /// Nothing differs between the two states.
    pub open spec fn unchanged(&self, other: &LogHandler) -> bool {
        self.same_but_pending(other) && self.pending_logs == other.pending_logs
    }

    /// Nothing but the known pools and the collected prices differs between
    /// the two states.
    pub open spec fn same_but_pools_and_prices(&self, other: &LogHandler) -> bool {
        &&& self.same_setting(other)
        &&& self.block_timestamps == other.block_timestamps
        &&& self.pending_logs == other.pending_logs
    }

    /// The log has been put aside until the header of block `number` arrives,
    /// and nothing else has changed.
    pub open spec fn has_buffered(
        &self,
        old: &LogHandler,
        number: u64,
        entry: PendingLogEntry,
    ) -> bool {
        &&& self.same_but_pending(old)
        &&& self.pending_logs.waiting(number) == old.pending_logs.waiting(number).with(entry)
        &&& forall|other: u64|
            other != number ==> self.pending_logs.waiting(other) == old.pending_logs.waiting(
                other,
            )
    }

    /// `price` has been added behind the prices of `pool` in block `number`,
    /// the pool going behind the pools of that block where it is new there,
    /// and nothing else has changed in what waits to become candles.
    pub open spec fn has_recorded(
        &self,
        old: &LogHandler,
        number: u64,
        pool: Address,
        price: DecimalView,
    ) -> bool {
        &&& self.accumulator.wf()
        &&& self.accumulator.pool_order(number) == if has_key(
            old.accumulator.pools_of(number),
            pool,
        ) {
            old.accumulator.pool_order(number)
        } else {
            old.accumulator.pool_order(number).push(pool)
        }
        &&& self.accumulator.samples(number, pool) == old.accumulator.samples(number, pool).push(
            price,
        )
        &&& forall|n: u64, p: Address|
            n != number || p != pool ==> self.accumulator.samples(n, p)
                == old.accumulator.samples(n, p)
        &&& forall|n: u64|
            n != number ==> self.accumulator.pools_of(n) == old.accumulator.pools_of(n)
        &&& self.accumulator.opening_prices@ == old.accumulator.opening_prices@
    }

    /// Whether a price of `pool` can be shown to users: it needs no turning
    /// over, or it can be divided by.
    pub open spec fn can_show(&self, pool: Pool, dex_price: DecimalView) -> bool {
        pool.token_0 == self.weth ==> can_divide(whole(1), dex_price)
    }

    /// Turns a price of `pool` into the price shown to users and adds it to
    /// the prices that the pool showed during `block`. A price that would
    /// have to be turned over and cannot be divided by gives no price.
    pub fn insert_price(&mut self, pool: &Pool, dex_price: Decimal, block: Block) -> (r: Result<
        Decimal,
        PumpError,
    >)
        requires
            old(self).wf(),
        ensures
            final(self).wf(),
            final(self).same_but_pools_and_prices(old(self)),
            final(self).pools == old(self).pools,
            match r {
                Ok(price) => {
                    &&& old(self).can_show(*pool, dex_price@)
                    &&& price@ == ui_price_view(*pool, old(self).weth, dex_price@)
                    &&& final(self).has_recorded(old(self), block.number, pool.lp_token, price@)
                },
                Err(e) => {
                    &&& !old(self).can_show(*pool, dex_price@)
                    &&& e == PumpError::no_prices_spec(block.number, pool.lp_token)
                    &&& final(self).accumulator == old(self).accumulator
                },
            },
    {
        if pool.token_0 == self.weth && !Decimal::one().divides_by(&dex_price) {
            return Err(PumpError::no_prices(block.number, pool.lp_token));
        }
        let price = pool.to_ui_price(self.weth, dex_price);
        self.accumulator.record(block, pool.lp_token, price.clone());
        Ok(price)
    }

    /// What a reserve report of `pool` comes to: the price to be shown, or
    /// the reason why there is none.
    pub open spec fn sync_outcome(&self, pool: Pool, sync: Sync, number: u64) -> Result<
        DecimalView,
        PumpError,
    > {
        if sync.reserve0 == 0 {
            Err(PumpError::zero_reserve_spec(pool.lp_token))
        } else if !self.can_show(pool, sync_price_view(sync.reserve0, sync.reserve1)) {
            Err(PumpError::no_prices_spec(number, pool.lp_token))
        } else {
            Ok(ui_price_view(pool, self.weth, sync_price_view(sync.reserve0, sync.reserve1)))
        }
    }

    /// What taking up a reserve report comes to, with `old` the state before,
    /// `self` the state after and `r` the result.
    pub open spec fn sync_handled(
        &self,
        old: &LogHandler,
        log: Log<Sync>,
        fetched: FetchedTokens,
        r: Result<Handled, PumpError>,
    ) -> bool {
        match block_kind_of(old.block_timestamps@, log.block_number) {
            None => {
                &&& r.is_err()
                &&& r.unwrap_err() == PumpError::no_block_number_spec()
                &&& self.unchanged(old)
            },
            Some(BlockKind::NumberOnly(number)) => {
                &&& r.is_ok()
                &&& r.unwrap().is_nothing()
                &&& self.has_buffered(old, number, PendingLogEntry::Sync(log))
            },
            Some(BlockKind::Block(block)) => {
                &&& self.same_but_pools_and_prices(old)
                &&& self.pools_after_lookup(old, log.address, fetched)
                &&& match old.pool_after_lookup(log.address, fetched) {
                    None => {
                        &&& r.is_err()
                        &&& r.unwrap_err() == PumpError::PairNotFound(log.address)
                        &&& self.accumulator == old.accumulator
                    },
                    Some(pool) => match old.sync_outcome(pool, log.data, block.number) {
                        Err(e) => {
                            &&& r.is_err()
                            &&& r.unwrap_err() == e
                            &&& self.accumulator == old.accumulator
                        },
                        Ok(price) => {
                            &&& r.is_ok()
                            &&& r.unwrap().is_nothing()
                            &&& self.has_recorded(
                                old,
                                block.number,
                                log.address,
                                price,
                            )
                        },
                    },
                }
            },
        }
    }

    /// Takes up a reserve report of a pair. Where the header of the block has
    /// not arrived, the log is put aside. Where it has, the pair is looked
    /// up, and the price that its reserves stand for is added to the prices
    /// of the pair in that block. A log without a block number, a pair that
    /// cannot be had, and reserves that give no price are errors.
    pub fn handle_sync(&mut self, log: Log<Sync>, fetched: FetchedTokens) -> (r: Result<
        Handled,
        PumpError,
    >)
        requires
            old(self).wf(),
        ensures
            final(self).wf(),
            final(self).sync_handled(old(self), log, fetched, r),
    {
        let block = match self.try_block(&log) {
            Ok(BlockKind::Block(block)) => block,
            Ok(BlockKind::NumberOnly(number)) => {
                self.pending_logs.push(number, PendingLogEntry::Sync(log));
                return Ok(Handled::nothing());
            },
            Err(e) => {
                return Err(e);
            },
        };
        let lp_token = log.address;
        let pool = match self.get_pool(lp_token, fetched) {
            Ok(pool) => pool,
            Err(e) => {
                return Err(e);
            },
        };
        let dex_price = match Pool::sync_price(&log.data) {
            Some(price) => price,
            None => {
                return Err(PumpError::zero_reserve(lp_token));
            },
        };
        match self.insert_price(&pool, dex_price, block) {
            Ok(_) => Ok(Handled::nothing()),
            Err(e) => Err(e),
        }
    }

    /// The row under which a pool is stored when it is given to a coin at
    /// the time of `block`.
    pub open spec fn is_pool_row(&self, row: models::Pool, pool: Pool, block: Block) -> bool {
        &&& row.address@ == address_checksum(pool.lp_token.bytes@)
        &&& row.chain_id == self.chain_id
        &&& row.dex@ == address_checksum(self.router.bytes@)
        &&& row.token_0@ == address_checksum(pool.token_0.bytes@)
        &&& row.token_1@ == address_checksum(pool.token_1.bytes@)
        &&& row.created_at == block.timestamp
    }

    /// What taking up the news of a new pool comes to, with `old` the state
    /// before, `self` the state after and `r` the result.
    pub open spec fn deploy_handled(
        &self,
        old: &LogHandler,
        log: Log<DeployedToDex>,
        fetched: FetchedTokens,
        r: Result<Handled, PumpError>,
    ) -> bool {
        match block_kind_of(old.block_timestamps@, log.block_number) {
            None => {
                &&& r.is_err()
                &&& r.unwrap_err() == PumpError::no_block_number_spec()
                &&& self.unchanged(old)
            },
            Some(BlockKind::NumberOnly(number)) => {
                &&& r.is_ok()
                &&& r.unwrap().is_nothing()
                &&& self.has_buffered(
                    old,
                    number,
                    PendingLogEntry::DeployedToDex(log),
                )
            },
            Some(BlockKind::Block(block)) => {
                &&& self.same_but_pools(old)
                &&& self.pools_after_lookup(old, log.data.lp_token, fetched)
                &&& match old.pool_after_lookup(log.data.lp_token, fetched) {
                    None => {
                        &&& r.is_err()
                        &&& r.unwrap_err() == PumpError::PairNotFound(log.data.lp_token)
                    },
                    Some(pool) => {
                        &&& r.is_ok()
                        &&& r.unwrap().dispatch == if old.pools.knows(
                            log.data.lp_token,
                        ) {
                            Dispatch::Continue
                        } else {
                            Dispatch::RequiresResubscription
                        }
                        &&& r.unwrap().effects@.len() == 2
                        &&& r.unwrap().effects@[0] matches Effect::UpsertDeployedPool { pool: row }
                            && old.is_pool_row(row, pool, block)
                        &&& r.unwrap().effects@[1] == (Effect::UpdateDeployedPool {
                            coin_id: log.data.coin_id as i64,
                            pool: log.data.lp_token,
                        })
                    },
                }
            },
        }
    }

    /// Takes up the news that a coin was given a pool on the exchange. Where
    /// the header of the block has not arrived, the log is put aside. Where
    /// it has, the pool is looked up; it is to be stored, and to be stored
    /// as the pool of the coin. The subscription has to be made anew exactly
    /// where the listener did not know the pool before. A log without a
    /// block number and a pool that cannot be had are errors.
    pub fn handle_deploy(&mut self, log: Log<DeployedToDex>, fetched: FetchedTokens) -> (r: Result<
        Handled,
        PumpError,
    >)
        requires
            old(self).wf(),
        ensures
            final(self).wf(),
            final(self).deploy_handled(old(self), log, fetched, r),
    {
        let block = match self.try_block(&log) {
            Ok(BlockKind::Block(block)) => block,
            Ok(BlockKind::NumberOnly(number)) => {
                self.pending_logs.push(number, PendingLogEntry::DeployedToDex(log));
                return Ok(Handled::nothing());
            },
            Err(e) => {
                return Err(e);
            },
        };
        let data = log.data;
        let known = self.pools.get(&data.lp_token).is_some();
        let pool = match self.get_pool(data.lp_token, fetched) {
            Ok(pool) => pool,
            Err(e) => {
                return Err(e);
            },
        };
        let row = models::Pool {
            address: pool.lp_token.to_string(),
            chain_id: self.chain_id,
            dex: self.router.to_string(),
            token_0: pool.token_0.to_string(),
            token_1: pool.token_1.to_string(),
            created_at: block.timestamp,
        };
        let mut effects: Vec<Effect> = Vec::new();
        effects.push(Effect::UpsertDeployedPool { pool: row });
        effects.push(Effect::UpdateDeployedPool { coin_id: data.coin_id as i64, pool: data.lp_token });
        let dispatch = if known {
            Dispatch::Continue
        } else {
            Dispatch::RequiresResubscription
        };
        Ok(Handled { dispatch, effects })
    }

    /// What a swap against `pool` comes to: the price to be shown, or the
    /// reason why the swap is not taken up. A swap whose flows give no price,
    /// or a price that cannot be shown, has no price; a swap with a price
    /// needs the hash of its transaction.
    pub open spec fn swap_outcome(&self, pool: Pool, log: Log<Swap>) -> Result<
        DecimalView,
        PumpError,
    > {
        let net0 = net_flow(log.data.amount0_in@, log.data.amount0_out@);
        let net1 = net_flow(log.data.amount1_in@, log.data.amount1_out@);
        if !flows_give_price(net0, net1) || !self.can_show(pool, swap_price_view(net0, net1)) {
            Err(PumpError::no_swap_price_spec(pool.lp_token, log.transaction_hash))
        } else if log.transaction_hash.is_none() {
            Err(PumpError::missing_tx_spec())
        } else {
            Ok(ui_price_view(pool, self.weth, swap_price_view(net0, net1)))
        }
    }

    /// The trade that a swap with a price is stored as.
    pub open spec fn is_trade_of(trade: Trade, log: Log<Swap>, block: Block) -> bool {
        let net0 = net_flow(log.data.amount0_in@, log.data.amount0_out@);
        let net1 = net_flow(log.data.amount1_in@, log.data.amount1_out@);
        &&& log.transaction_hash.is_some()
        &&& trade.tx@ == seq!['0', 'x'] + hex_lower(log.transaction_hash.unwrap().bytes@)
        &&& trade.pool@ == address_checksum(log.address.bytes@)
        &&& trade.trader@ == address_checksum(log.data.to.bytes@)
        &&& trade.buy_0 == (net0 > 0)
        &&& trade.amount_0@ == whole(net0)
        &&& trade.amount_1@ == whole(net1)
        &&& trade.time == block.timestamp
    }

    /// What taking up a swap comes to, with `old` the state before, `self` the
    /// state after and `r` the result.
    pub open spec fn swap_handled(
        &self,
        old: &LogHandler,
        log: Log<Swap>,
        fetched: FetchedTokens,
        r: Result<Handled, PumpError>,
    ) -> bool {
        match block_kind_of(old.block_timestamps@, log.block_number) {
            None => {
                &&& r.is_err()
                &&& r.unwrap_err() == PumpError::no_block_number_spec()
                &&& self.unchanged(old)
            },
            Some(BlockKind::NumberOnly(number)) => {
                &&& r.is_ok()
                &&& r.unwrap().is_nothing()
                &&& self.has_buffered(old, number, PendingLogEntry::Swap(log))
            },
            Some(BlockKind::Block(block)) => {
                &&& self.same_but_pools_and_prices(old)
                &&& self.pools_after_lookup(old, log.address, fetched)
                &&& match old.pool_after_lookup(log.address, fetched) {
                    None => {
                        &&& r.is_err()
                        &&& r.unwrap_err() == PumpError::PairNotFound(log.address)
                        &&& self.accumulator == old.accumulator
                    },
                    Some(pool) => match old.swap_outcome(pool, log) {
                        Err(e) => {
                            &&& r.is_err()
                            &&& r.unwrap_err() == e
                            &&& self.accumulator == old.accumulator
                        },
                        Ok(price) => {
                            &&& r.is_ok()
                            &&& r.unwrap().dispatch == Dispatch::Continue
                            &&& r.unwrap().effects@.len() == 1
                            &&& r.unwrap().effects@[0] matches Effect::AddTrade { trade }
                                && Self::is_trade_of(trade, log, block)
                            &&& self.has_recorded(
                                old,
                                block.number,
                                log.address,
                                price,
                            )
                        },
                    },
                }
            },
        }
    }

    /// Takes up a swap against a pair. Where the header of the block has not
    /// arrived, the log is put aside. Where it has, the pair is looked up,
    /// the price of the swap is added to the prices of the pair in that
    /// block, and the swap is to be stored as a trade. A log without a block
    /// number, a pair that cannot be had, a swap without a price and a swap
    /// without a transaction hash are errors, and leave the prices as they
    /// are.
    pub fn handle_swap(&mut self, log: Log<Swap>, fetched: FetchedTokens) -> (r: Result<
        Handled,
        PumpError,
    >)
        requires
            old(self).wf(),
        ensures
            final(self).wf(),
            final(self).swap_handled(old(self), log, fetched, r),
    {
        let block = match self.try_block(&log) {
            Ok(BlockKind::Block(block)) => block,
            Ok(BlockKind::NumberOnly(number)) => {
                self.pending_logs.push(number, PendingLogEntry::Swap(log));
                return Ok(Handled::nothing());
            },
            Err(e) => {
                return Err(e);
            },
        };

        let lp_token = log.address;
        let pool = match self.get_pool(lp_token, fetched) {
            Ok(pool) => pool,
            Err(e) => {
                return Err(e);
            },
        };
        let data = log.data;
        let (buy_0, amount_0, amount_1, dex_price) = match Pool::swap_price(&data) {
            Some(px) => px,
            None => {
                return Err(PumpError::no_swap_price(lp_token, log.transaction_hash));
            },
        };
        if pool.token_0 == self.weth && !Decimal::one().divides_by(&dex_price) {
            return Err(PumpError::no_swap_price(lp_token, log.transaction_hash));
        }
        let tx = match log.transaction_hash {
            Some(tx) => tx.to_string(),
            None => {
                return Err(PumpError::missing_tx());
            },
        };
        let trade = Trade {
            tx,
            pool: pool.lp_token.to_string(),
            buy_0,
            amount_0,
            amount_1,
            time: block.timestamp,
            trader: data.to.to_string(),
        };
        match self.insert_price(&pool, dex_price, block) {
            Ok(_) => {},
            Err(e) => {
                return Err(e);
            },
        }
        let mut effects: Vec<Effect> = Vec::new();
        effects.push(Effect::AddTrade { trade });
        Ok(Handled { dispatch: Dispatch::Continue, effects })
    }

    /// The log could not be read as an event with `topics` topics, and
    /// nothing has changed.
    pub open spec fn decode_failed(
        &self,
        old: &LogHandler,
        log: RawLog,
        topics: int,
        r: Result<Handled, PumpError>,
    ) -> bool {
        &&& r.is_err()
        &&& r.unwrap_err() == shape_error(log, topics)
        &&& self.unchanged(old)
    }

    /// What taking up a log of a known kind comes to: a log that has not
    /// the shape of its kind is an error; any other is read and taken up as
    /// what it says.
    pub open spec fn kind_handled(
        &self,
        old: &LogHandler,
        kind: EventKind,
        log: RawLog,
        fetched: FetchedTokens,
        r: Result<Handled, PumpError>,
    ) -> bool {
        match kind {
            EventKind::CoinCreated => if has_shape(log, 1, 1) {
                self.unchanged(old) && exists|read: Log<CoinCreated>|
                    coin_created_reads(log, read) && Self::creation_handled(read, r)
            } else {
                self.decode_failed(old, log, 1, r)
            },
            EventKind::WeiInUpdated => if has_shape(log, 1, 2) {
                exists|read: Log<WeiInUpdated>|
                    wei_in_updated_reads(log, read) && self.wei_in_updated_handled(old, read, r)
            } else {
                self.decode_failed(old, log, 1, r)
            },
            EventKind::CoinGraduated => if has_shape(log, 1, 1) {
                self.unchanged(old) && exists|read: Log<CoinGraduated>|
                    coin_graduated_reads(log, read) && Self::graduation_handled(read, r)
            } else {
                self.decode_failed(old, log, 1, r)
            },
            EventKind::DeployedToDex => if has_shape(log, 1, 2) {
                exists|read: Log<DeployedToDex>|
                    deployed_to_dex_reads(log, read) && self.deploy_handled(old, read, fetched, r)
            } else {
                self.decode_failed(old, log, 1, r)
            },
            EventKind::Swap => if has_shape(log, 3, 4) {
                exists|read: Log<Swap>|
                    swap_reads(log, read) && self.swap_handled(old, read, fetched, r)
            } else {
                self.decode_failed(old, log, 3, r)
            },
            EventKind::Sync => if has_shape(log, 1, 2) {
                exists|read: Log<Sync>|
                    sync_reads(log, read) && self.sync_handled(old, read, fetched, r)
            } else {
                self.decode_failed(old, log, 1, r)
            },
        }
    }

    /// What taking up a log comes to: a log without a first topic, or with
    /// one that names no kind of event, is an error and changes nothing; any
    /// other is taken up as the kind that its first topic names.
    pub open spec fn log_handled(
        &self,
        old: &LogHandler,
        log: RawLog,
        fetched: FetchedTokens,
        r: Result<Handled, PumpError>,
    ) -> bool {
        if log.topics@.len() == 0 {
            &&& r.is_err()
            &&& r.unwrap_err() == PumpError::unknown_topic_spec(None)
            &&& self.unchanged(old)
        } else if exists|kind: EventKind| log.topics@[0].bytes@ == topic_of(kind) {
            forall|kind: EventKind|
                log.topics@[0].bytes@ == #[trigger] topic_of(kind) ==> self.kind_handled(
                    old,
                    kind,
                    log,
                    fetched,
                    r,
                )
        } else {
            &&& r.is_err()
            &&& r.unwrap_err() == PumpError::unknown_topic_spec(Some(log.topics@[0]))
            &&& self.unchanged(old)
        }
    }

    /// Takes up one log of the feed: finds the kind of event that its first
    /// topic names, reads it, and does what that kind of event asks for.
    /// `fetched` holds the tokens of the pool that the log is about, where
    /// the listener did not know the pool and the chain answered.
    pub fn handle_log(&mut self, log: &RawLog, fetched: FetchedTokens) -> (r: Result<
        Handled,
        PumpError,
    >)
        requires
            old(self).wf(),
        ensures
            final(self).wf(),
            final(self).log_handled(old(self), *log, fetched, r),
    {
        let topic = match log.topic0() {
            Some(topic) => topic,
            None => {
                return Err(PumpError::unknown_topic(None));
            },
        };
        let kind = match EventKind::from_topic(&topic) {
            Some(kind) => kind,
            None => {
                return Err(PumpError::unknown_topic(Some(topic)));
            },
        };
        proof {
            assert forall|other: EventKind| log.topics@[0].bytes@ == #[trigger] topic_of(
                other,
            ) implies other == kind by {
                if other != kind {
                    lemma_topics_differ(other, kind);
                }
            }
        }
        match kind {
            EventKind::CoinCreated => match CoinCreated::decode(log) {
                Ok(read) => self.handle_creation(read),
                Err(e) => Err(e),
            },
            EventKind::WeiInUpdated => match WeiInUpdated::decode(log) {
                Ok(read) => self.handle_wei_in_updated(read),
                Err(e) => Err(e),
            },
            EventKind::CoinGraduated => match CoinGraduated::decode(log) {
                Ok(read) => self.handle_graduation(read),
                Err(e) => Err(e),
            },
            EventKind::DeployedToDex => match DeployedToDex::decode(log) {
                Ok(read) => self.handle_deploy(read, fetched),
                Err(e) => Err(e),
            },
            EventKind::Swap => match Swap::decode(log) {
                Ok(read) => self.handle_swap(read, fetched),
                Err(e) => Err(e),
            },
            EventKind::Sync => match Sync::decode(log) {
                Ok(read) => self.handle_sync(read, fetched),
                Err(e) => Err(e),
            },
        }
    }

    /// Makes the candle of one pool for `block`; see
    /// [`CandleAccumulator::flush_candle`]. Nothing but the held closes
    /// changes.
    pub fn flush_candle(&mut self, lp_token: Address, prices: Vec<Decimal>, block: Block) -> (r:
        Result<NewPoolPrice, PumpError>)
        requires
            old(self).wf(),
            block.number < u64::MAX,
        ensures
            final(self).wf(),
            final(self).same_setting(old(self)),
            final(self).pools == old(self).pools,
            final(self).block_timestamps == old(self).block_timestamps,
            final(self).pending_logs == old(self).pending_logs,
            final(self).accumulator.prices@ == old(self).accumulator.prices@,
            final(self).accumulator.candle_made(
                &old(self).accumulator,
                lp_token,
                prices@,
                block,
                r,
            ),
    {
        self.accumulator.flush_candle(lp_token, prices, block)
    }

    /// Whether the log `log` needs the pool `lp_token` looked up on the
    /// chain before it is taken up: the header of its block has arrived, so
    /// that it will not be put aside; it is a swap or a reserve report of
    /// that pair, or the news of that pool; and the pool is not known.
    pub open spec fn asks_for(&self, log: RawLog, lp_token: Address) -> bool {
        &&& log.topics@.len() > 0
        &&& log.block_number.is_some()
        &&& self.block_timestamps@.contains_key(log.block_number.unwrap())
        &&& !self.pools.knows(lp_token)
        &&& {
            ||| log.topics@[0].bytes@ == topic_of(EventKind::Swap) && has_shape(log, 3, 4)
                && lp_token == log.address
            ||| log.topics@[0].bytes@ == topic_of(EventKind::Sync) && has_shape(log, 1, 2)
                && lp_token == log.address
            ||| log.topics@[0].bytes@ == topic_of(EventKind::DeployedToDex) && has_shape(log, 1, 2)
                && lp_token.bytes@ == address_of_word(word_at(log.data@, 1))
        }
    }

    /// The pool whose tokens the driver has to ask the chain for before it
    /// hands `log` to [`LogHandler::handle_log`]; nothing where the log
    /// needs no pool, the pool is known, or the log will be put aside.
    pub fn lookup_for(&self, log: &RawLog) -> (r: Option<Address>)
        requires
            self.wf(),
        ensures
            match r {
                Some(lp_token) => self.asks_for(*log, lp_token),
                None => forall|lp_token: Address| !self.asks_for(*log, lp_token),
            },
    {
        let topic = match log.topic0() {
            Some(topic) => topic,
            None => {
                return None;
            },
        };
        let number = match log.block_number {
            Some(number) => number,
            None => {
                return None;
            },
        };
        if self.block_timestamps.get(&number).is_none() {
            return None;
        }
        let kind = match EventKind::from_topic(&topic) {
            Some(kind) => kind,
            None => {
                return None;
            },
        };
        proof {
            if kind != EventKind::Swap {
                lemma_topics_differ(kind, EventKind::Swap);
            }
            if kind != EventKind::Sync {
                lemma_topics_differ(kind, EventKind::Sync);
            }
            if kind != EventKind::DeployedToDex {
                lemma_topics_differ(kind, EventKind::DeployedToDex);
            }
        }
        let lp_token = match kind {
            EventKind::Swap => match log.check_shape(3, 4) {
                Ok(_) => log.address,
                Err(_) => {
                    return None;
                },
            },
            EventKind::Sync => match log.check_shape(1, 2) {
                Ok(_) => log.address,
                Err(_) => {
                    return None;
                },
            },
            EventKind::DeployedToDex => match DeployedToDex::decode(log) {
                Ok(read) => read.data.lp_token,
                Err(_) => {
                    return None;
                },
            },
            _ => {
                return None;
            },
        };
        if self.pools.get(&lp_token).is_some() {
            assert forall|other: Address| !self.asks_for(*log, other) by {
                if self.asks_for(*log, other) {
                    assert(other.bytes@ =~= lp_token.bytes@);
                    assert(other.bytes =~= lp_token.bytes);
                }
            }
            return None;
        }
        Some(lp_token)
    }

    /// The pools that the driver has to ask the chain for before the logs
    /// `entries` are taken up: the pools that the logs are about and that
    /// are not known, each once, in the order of the logs.
    pub open spec fn lookups_of(&self, entries: Seq<PendingLogEntry>) -> Seq<Address>
        decreases entries.len(),
    {
        if entries.len() == 0 {
            Seq::empty()
        } else {
            let before = self.lookups_of(entries.drop_last());
            match entries.last().pool() {
                Some(lp_token) => if self.pools.knows(lp_token) || before.contains(lp_token) {
                    before
                } else {
                    before.push(lp_token)
                },
                None => before,
            }
        }
    }

    /// The pools whose tokens the driver has to ask the chain for before it
    /// hands the header of block `number` to [`LogHandler::new_block`].
    pub fn lookups_for(&self, number: u64) -> (r: Vec<Address>)
        requires
            self.wf(),
        ensures
            r@ == self.lookups_of(self.pending_logs.waiting(number).replay_order()),
    {
        let entries = match self.pending_logs.peek(number) {
            Some(logs) => logs.replay_order(),
            None => {
                assert(PendingView::empty().replay_order() =~= Seq::<PendingLogEntry>::empty());
                Vec::new()
            },
        };
        let mut lookups: Vec<Address> = Vec::new();
        let mut i: usize = 0;
        while i < entries.len()
            invariant
                self.wf(),
                i <= entries@.len(),
                lookups@ == self.lookups_of(entries@.take(i as int)),
            decreases entries@.len() - i,
        {
            assert(entries@.take(i + 1).drop_last() =~= entries@.take(i as int));
            match entries[i].pool_named() {
                Some(lp_token) => {
                    if self.pools.get(&lp_token).is_none() && !holds(&lookups, &lp_token) {
                        lookups.push(lp_token);
                    }
                },
                None => {},
            }
            i += 1;
        }
        assert(entries@.take(entries@.len() as int) =~= entries@);
        lookups
    }

    /// What the chain answered for the pool of `lp_token`.
    pub open spec fn answer_for(
        fetched: AddressMap<(Address, Address)>,
        lp_token: Address,
    ) -> FetchedTokens {
        if fetched.contains(lp_token) {
            Some(fetched.value(lp_token))
        } else {
            None
        }
    }

    /// What taking up a log that had been put aside comes to.
    pub open spec fn entry_handled(
        &self,
        old: &LogHandler,
        entry: PendingLogEntry,
        fetched: AddressMap<(Address, Address)>,
        r: Result<Handled, PumpError>,
    ) -> bool {
        match entry {
            PendingLogEntry::WeiInUpdated(log) => self.wei_in_updated_handled(old, log, r),
            PendingLogEntry::DeployedToDex(log) => self.deploy_handled(
                old,
                log,
                Self::answer_for(fetched, log.data.lp_token),
                r,
            ),
            PendingLogEntry::Swap(log) => self.swap_handled(
                old,
                log,
                Self::answer_for(fetched, log.address),
                r,
            ),
            PendingLogEntry::Sync(log) => self.sync_handled(
                old,
                log,
                Self::answer_for(fetched, log.address),
                r,
            ),
        }
    }

    /// Takes up a log that had been put aside, with the answers of the chain
    /// at hand.
    pub fn replay_entry(
        &mut self,
        entry: PendingLogEntry,
        fetched: &AddressMap<(Address, Address)>,
    ) -> (r: Result<Handled, PumpError>)
        requires
            old(self).wf(),
            fetched.wf(),
        ensures
            final(self).wf(),
            final(self).entry_handled(old(self), entry, *fetched, r),
    {
        match entry {
            PendingLogEntry::WeiInUpdated(log) => self.handle_wei_in_updated(log),
            PendingLogEntry::DeployedToDex(log) => {
                let answer = match fetched.get(&log.data.lp_token) {
                    Some(tokens) => Some(*tokens),
                    None => None,
                };
                self.handle_deploy(log, answer)
            },
            PendingLogEntry::Swap(log) => {
                let answer = match fetched.get(&log.address) {
                    Some(tokens) => Some(*tokens),
                    None => None,
                };
                self.handle_swap(log, answer)
            },
            PendingLogEntry::Sync(log) => {
                let answer = match fetched.get(&log.address) {
                    Some(tokens) => Some(*tokens),
                    None => None,
                };
                self.handle_sync(log, answer)
            },
        }
    }

    /// The state `last` and the first `count` of `results` are what comes of
    /// taking up the first `count` of `entries`, one after the other, from
    /// the state `first`. A log that fails does not keep the later ones from
    /// being taken up.
    pub open spec fn replayed(
        first: LogHandler,
        entries: Seq<PendingLogEntry>,
        fetched: AddressMap<(Address, Address)>,
        count: nat,
        last: LogHandler,
        results: Seq<Result<Handled, PumpError>>,
    ) -> bool
        decreases count,
    {
        if count == 0 {
            last == first
        } else {
            exists|before: LogHandler|
                Self::replayed(first, entries, fetched, (count - 1) as nat, before, results)
                    && #[trigger] last.entry_handled(
                    &before,
                    entries[count - 1],
                    fetched,
                    results[count - 1],
                )
        }
    }

    /// Only the first `count` results matter to [`LogHandler::replayed`].
    pub proof fn lemma_replayed_results(
        first: LogHandler,
        entries: Seq<PendingLogEntry>,
        fetched: AddressMap<(Address, Address)>,
        count: nat,
        last: LogHandler,
        results: Seq<Result<Handled, PumpError>>,
        other: Seq<Result<Handled, PumpError>>,
    )
        requires
            Self::replayed(first, entries, fetched, count, last, results),
            forall|j: int| 0 <= j < count ==> results[j] == other[j],
        ensures
            Self::replayed(first, entries, fetched, count, last, other),
        decreases count,
    {
        if count > 0 {
            let before = choose|before: LogHandler|
                Self::replayed(first, entries, fetched, (count - 1) as nat, before, results)
                    && #[trigger] last.entry_handled(
                    &before,
                    entries[count - 1],
                    fetched,
                    results[count - 1],
                );
            Self::lemma_replayed_results(
                first,
                entries,
                fetched,
                (count - 1) as nat,
                before,
                results,
                other,
            );
        }
    }

    /// A log of a block whose header has not arrived is put aside, not
    /// dropped: it waits among the logs of its block, nothing is to be
    /// stored for it yet, and no price is recorded.
    pub proof fn lemma_log_waits_for_header(
        &self,
        old: &LogHandler,
        entry: PendingLogEntry,
        fetched: AddressMap<(Address, Address)>,
        r: Result<Handled, PumpError>,
        number: u64,
    )
        requires
            self.entry_handled(old, entry, fetched, r),
            entry.block_number() == Some(number),
            !old.block_timestamps@.contains_key(number),
        ensures
            r.is_ok(),
            r.unwrap().is_nothing(),
            self.has_buffered(old, number, entry),
            self.accumulator == old.accumulator,
            self.pending_logs.waiting(number).replay_order().contains(entry),
    {
        let before = old.pending_logs.waiting(number);
        let after = self.pending_logs.waiting(number);
        let order = after.replay_order();
        let a = after.wei_in_updates.len() as int;
        let b = a + after.deployed_to_dexs.len();
        let c = b + after.syncs.len();
        match entry {
            PendingLogEntry::WeiInUpdated(log) => {
                assert(after.wei_in_updates == before.wei_in_updates.push(log));
                assert(order[a - 1] == entry);
            },
            PendingLogEntry::DeployedToDex(log) => {
                assert(after.deployed_to_dexs == before.deployed_to_dexs.push(log));
                assert(order[b - 1] == entry);
            },
            PendingLogEntry::Sync(log) => {
                assert(after.syncs == before.syncs.push(log));
                assert(order[c - 1] == entry);
            },
            PendingLogEntry::Swap(log) => {
                assert(after.swaps == before.swaps.push(log));
                assert(order[order.len() - 1] == entry);
            },
        }
    }

    /// Each of the first `count` logs has been taken up once, at its place
    /// in the order, by a listener that knew the same block times as the
    /// first.
    pub proof fn lemma_replayed_each(
        first: LogHandler,
        entries: Seq<PendingLogEntry>,
        fetched: AddressMap<(Address, Address)>,
        count: nat,
        last: LogHandler,
        results: Seq<Result<Handled, PumpError>>,
        i: int,
    )
        requires
            Self::replayed(first, entries, fetched, count, last, results),
            0 <= i < count,
        ensures
            last.block_timestamps == first.block_timestamps,
            exists|before: LogHandler, after: LogHandler|
                before.block_timestamps == first.block_timestamps && #[trigger] after.entry_handled(
                    &before,
                    entries[i],
                    fetched,
                    results[i],
                ),
        decreases count,
    {
        let before = choose|before: LogHandler|
            Self::replayed(first, entries, fetched, (count - 1) as nat, before, results)
                && #[trigger] last.entry_handled(
                &before,
                entries[count - 1],
                fetched,
                results[count - 1],
            );
        Self::lemma_replayed_times(first, entries, fetched, (count - 1) as nat, before, results);
        if i == count - 1 {
            assert(last.entry_handled(&before, entries[i], fetched, results[i]));
        } else {
            Self::lemma_replayed_each(
                first,
                entries,
                fetched,
                (count - 1) as nat,
                before,
                results,
                i,
            );
        }
    }

    /// Taking up logs that were put aside leaves the known block times as
    /// they are.
    pub proof fn lemma_replayed_times(
        first: LogHandler,
        entries: Seq<PendingLogEntry>,
        fetched: AddressMap<(Address, Address)>,
        count: nat,
        last: LogHandler,
        results: Seq<Result<Handled, PumpError>>,
    )
        requires
            Self::replayed(first, entries, fetched, count, last, results),
        ensures
            last.block_timestamps == first.block_timestamps,
        decreases count,
    {
        if count > 0 {
            let before = choose|before: LogHandler|
                Self::replayed(first, entries, fetched, (count - 1) as nat, before, results)
                    && #[trigger] last.entry_handled(
                    &before,
                    entries[count - 1],
                    fetched,
                    results[count - 1],
                );
            Self::lemma_replayed_times(
                first,
                entries,
                fetched,
                (count - 1) as nat,
                before,
                results,
            );
        }
    }

    /// When the header of a block arrives, every log that waited for it is
    /// taken up exactly once, in the order of the kinds, now that the time
    /// of its block is known; afterwards nothing waits for that block.
    pub proof fn lemma_header_takes_up_waiting(
        &self,
        old: &LogHandler,
        block: Block,
        fetched: AddressMap<(Address, Address)>,
        r: BlockOutcome,
        i: int,
    )
        requires
            self.block_handled(old, block, fetched, r),
            0 <= i < old.pending_logs.waiting(block.number).replay_order().len(),
        ensures
            r.replayed@.len() == old.pending_logs.waiting(block.number).replay_order().len(),
            self.pending_logs.waiting(block.number) == PendingView::empty(),
            exists|before: LogHandler, after: LogHandler|
                before.block_timestamps@.contains_key(block.number)
                    && #[trigger] after.entry_handled(
                    &before,
                    old.pending_logs.waiting(block.number).replay_order()[i],
                    fetched,
                    r.replayed@[i],
                ),
    {
        let order = old.pending_logs.waiting(block.number).replay_order();
        let (noted, done) = choose|noted: LogHandler, done: LogHandler|
            {
                &&& noted.header_noted(old, block)
                &&& #[trigger] Self::replayed(noted, order, fetched, order.len(), done, r.replayed@)
                &&& self.same_setting(&done)
                &&& self.pools == done.pools
                &&& self.block_timestamps == done.block_timestamps
                &&& self.pending_logs == done.pending_logs
                &&& self.accumulator.flushed_from(
                    &done.accumulator,
                    block.number,
                    old.confirmations,
                    r.candles@,
                )
            };
        Self::lemma_replayed_each(noted, order, fetched, order.len(), done, r.replayed@, i);
        let (before, after) = choose|before: LogHandler, after: LogHandler|
            before.block_timestamps == noted.block_timestamps && #[trigger] after.entry_handled(
                &before,
                order[i],
                fetched,
                r.replayed@[i],
            );
        assert(before.block_timestamps@.contains_key(block.number));
    }

    /// The news of a pool that comes a second time asks for no new
    /// subscription: once it has been taken up, the pool is known.
    pub proof fn lemma_second_delivery_continues(
        &self,
        old: &LogHandler,
        older: &LogHandler,
        log: Log<DeployedToDex>,
        first_fetched: FetchedTokens,
        fetched: FetchedTokens,
        first: Result<Handled, PumpError>,
        second: Result<Handled, PumpError>,
    )
        requires
            old.deploy_handled(older, log, first_fetched, first),
            first.is_ok(),
            log.block_number.is_some(),
            older.block_timestamps@.contains_key(log.block_number.unwrap()),
            self.deploy_handled(old, log, fetched, second),
        ensures
            second.is_ok(),
            second.unwrap().dispatch == Dispatch::Continue,
    {
    }

    /// The header of `block` has been taken note of: its time is known, what
    /// waited for it waits no longer, and nothing else has changed.
    pub open spec fn header_noted(&self, old: &LogHandler, block: Block) -> bool {
        &&& self.same_setting(old)
        &&& self.accumulator == old.accumulator
        &&& self.pools == old.pools
        &&& self.block_timestamps@ == old.block_timestamps@.insert(block.number, block.timestamp)
        &&& self.pending_logs.waiting(block.number) == PendingView::empty()
        &&& forall|other: u64|
            other != block.number ==> self.pending_logs.waiting(other)
                == old.pending_logs.waiting(other)
    }

    /// What the arrival of the header of `block` comes to: the header is
    /// taken note of; the logs that waited for it are taken up in their
    /// order, each with its own result; and then the block that lies the
    /// confirmation depth back is flushed into its candles.
    pub open spec fn block_handled(
        &self,
        old: &LogHandler,
        block: Block,
        fetched: AddressMap<(Address, Address)>,
        r: BlockOutcome,
    ) -> bool {
        let order = old.pending_logs.waiting(block.number).replay_order();
        &&& r.replayed@.len() == order.len()
        &&& self.block_timestamps@ == old.block_timestamps@.insert(block.number, block.timestamp)
        &&& self.pending_logs.waiting(block.number) == PendingView::empty()
        &&& forall|other: u64|
            other != block.number ==> self.pending_logs.waiting(other)
                == old.pending_logs.waiting(other)
        &&& exists|noted: LogHandler, done: LogHandler|
            {
                &&& noted.header_noted(old, block)
                &&& #[trigger] Self::replayed(noted, order, fetched, order.len(), done, r.replayed@)
                &&& self.same_setting(&done)
                &&& self.pools == done.pools
                &&& self.block_timestamps == done.block_timestamps
                &&& self.pending_logs == done.pending_logs
                &&& self.accumulator.flushed_from(
                    &done.accumulator,
                    block.number,
                    old.confirmations,
                    r.candles@,
                )
            }
    }

    /// Takes up the header of a block: takes note of its time, takes up the
    /// logs that waited for it, and flushes the candles of the block that is
    /// confirmed by it. `fetched` holds what the chain answered for the
    /// pools that [`LogHandler::lookups_for`] asked for.
    pub fn new_block(&mut self, block: Block, fetched: &AddressMap<(Address, Address)>) -> (r:
        BlockOutcome)
        requires
            old(self).wf(),
            fetched.wf(),
            old(self).confirmations >= 1 || block.number < u64::MAX,
        ensures
            final(self).wf(),
            final(self).block_handled(old(self), block, *fetched, r),
    {
        let ghost order = self.pending_logs.waiting(block.number).replay_order();
        proof {
            lemma_replay_order_all_for(self.pending_logs.waiting(block.number), block.number);
        }
        self.block_timestamps.insert(block.number, block.timestamp);
        let entries = self.pending_logs.drain(block.number);
        assert(PendingView::empty().all_for(block.number));
        let ghost noted = *self;
        let mut replayed: Vec<Result<Handled, PumpError>> = Vec::new();
        let mut i: usize = 0;
        while i < entries.len()
            invariant
                i <= entries@.len(),
                entries@ == order,
                self.wf(),
                fetched.wf(),
                noted.wf(),
                replayed@.len() == i,
                self.same_setting(&noted),
                self.block_timestamps == noted.block_timestamps,
                self.pending_logs == noted.pending_logs,
                noted.block_timestamps@.contains_key(block.number),
                forall|j: int|
                    0 <= j < order.len() ==> (#[trigger] order[j]).block_number() == Some(
                        block.number,
                    ),
                Self::replayed(noted, order, *fetched, i as nat, *self, replayed@),
            decreases entries@.len() - i,
        {
            let ghost before = *self;
            let ghost earlier = replayed@;
            let entry = entries[i];
            assert(entry.block_number() == Some(block.number));
            let result = self.replay_entry(entry, fetched);
            replayed.push(result);
            proof {
                Self::lemma_replayed_results(
                    noted,
                    order,
                    *fetched,
                    i as nat,
                    before,
                    earlier,
                    replayed@,
                );
                assert(self.entry_handled(
                    &before,
                    order[(i + 1) as nat - 1],
                    *fetched,
                    replayed@[(i + 1) as nat - 1],
                ));
                assert(((i + 1) as nat - 1) as nat == i as nat);
                assert(Self::replayed(noted, order, *fetched, (i + 1) as nat, *self, replayed@));
            }
            i += 1;
        }
        let ghost done = *self;
        let candles = self.accumulator.confirm_and_flush(block.number, self.confirmations);
        let r = BlockOutcome { replayed, candles };
        assert(Self::replayed(noted, order, *fetched, order.len(), done, r.replayed@));
        r
    }
}

/// What came of the header of a block: the result of each log that had
/// waited for it, in the order in which they were taken up, and the candles
/// of the block that it confirmed.
#[derive(Debug)]
pub struct BlockOutcome {
    pub replayed: Vec<Result<Handled, PumpError>>,
    pub candles: Vec<NewPoolPrice>,
}

} // verus!
