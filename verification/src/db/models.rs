use crate::address::{address_checksum, Address};
use crate::client::block::Block;
use crate::decimal::{
    lemma_value_le_transitive, lemma_value_lt_le_transitive, value_le, value_lt, Decimal,
    DecimalView,
};
use crate::error::pump::PumpError;
use vstd::prelude::*;

verus! {

/// A pool as storage holds it. Addresses stand in their checksummed text, and
/// `created_at` counts seconds since the Unix epoch.
#[derive(Debug)]
pub struct Pool {
    pub address: String,
    pub chain_id: i32,
    pub dex: String,
    pub token_0: String,
    pub token_1: String,
    pub created_at: i64,
}

/// A coin as it is written to storage. What the chain does not say of a coin
/// is left open.
#[derive(Debug)]
pub struct NewCoin {
    pub id: i64,
    pub name: String,
    pub symbol: String,
    pub supply: Decimal,
    pub decimals: i32,
    pub contract_address: String,
    pub creator: String,
    pub description: Option<String>,
    pub image_url: Option<String>,
    pub twitter: Option<String>,
    pub website: Option<String>,
    pub telegram: Option<String>,
}

/// One candle: the first, highest, lowest and last price of a pool within one
/// block, at the block's time.
#[derive(Debug)]
pub struct NewPoolPrice {
    pub pool: String,
    pub time: i64,
    pub open: Decimal,
    pub high: Decimal,
    pub low: Decimal,
    pub close: Decimal,
}

/// One swap as storage holds it.
#[derive(Debug)]
pub struct Trade {
    pub tx: String,
    pub pool: String,
    pub trader: String,
    pub buy_0: bool,
    pub amount_0: Decimal,
    pub amount_1: Decimal,
    pub time: i64,
}

/// The views of a list of prices.
pub open spec fn price_views(prices: Seq<Decimal>) -> Seq<DecimalView> {
    prices.map_values(|p: Decimal| p@)
}

/// `i` is where the highest price stands: none is higher, and every later one
/// is lower. Of several equal highest prices this is the last.
pub open spec fn is_high_at(prices: Seq<DecimalView>, i: int) -> bool {
    &&& 0 <= i < prices.len()
    &&& forall|j: int| 0 <= j < prices.len() ==> value_le(#[trigger] prices[j], prices[i])
    &&& forall|j: int| i < j < prices.len() ==> value_lt(#[trigger] prices[j], prices[i])
}

/// `i` is where the lowest price stands: none is lower, and every earlier one
/// is higher. Of several equal lowest prices this is the first.
pub open spec fn is_low_at(prices: Seq<DecimalView>, i: int) -> bool {
    &&& 0 <= i < prices.len()
    &&& forall|j: int| 0 <= j < prices.len() ==> value_le(prices[i], #[trigger] prices[j])
    &&& forall|j: int| 0 <= j < i ==> value_lt(prices[i], #[trigger] prices[j])
}

/// What the candle over `prices` holds: the first price, the last of the
/// highest, the first of the lowest, and the last price.
pub open spec fn is_candle_of(
    prices: Seq<DecimalView>,
    open: DecimalView,
    high: DecimalView,
    low: DecimalView,
    close: DecimalView,
) -> bool {
    &&& prices.len() > 0
    &&& open == prices[0]
    &&& close == prices[prices.len() - 1]
    &&& exists|i: int| is_high_at(prices, i) && high == prices[i]
    &&& exists|i: int| is_low_at(prices, i) && low == prices[i]
}

/// In a candle, the opening and the closing price lie between the low and the
/// high.
pub proof fn lemma_candle_bounds(
    prices: Seq<DecimalView>,
    open: DecimalView,
    high: DecimalView,
    low: DecimalView,
    close: DecimalView,
)
    requires
        is_candle_of(prices, open, high, low, close),
    ensures
        value_le(low, open),
        value_le(open, high),
        value_le(low, close),
        value_le(close, high),
        value_le(low, high),
{
    let h = choose|i: int| is_high_at(prices, i) && high == prices[i];
    let l = choose|i: int| is_low_at(prices, i) && low == prices[i];
    assert(value_le(prices[0], prices[h]));
    assert(value_le(prices[prices.len() - 1], prices[h]));
    assert(value_le(prices[l], prices[0]));
    assert(value_le(prices[l], prices[prices.len() - 1]));
    assert(value_le(prices[l], prices[h]));
}

/// A list of prices has one place for its high and one for its low.
pub proof fn lemma_candle_places_unique(prices: Seq<DecimalView>, i: int, j: int)
    ensures
        is_high_at(prices, i) && is_high_at(prices, j) ==> i == j,
        is_low_at(prices, i) && is_low_at(prices, j) ==> i == j,
{
    if is_high_at(prices, i) && is_high_at(prices, j) && i != j {
        if i < j {
            assert(value_lt(prices[j], prices[i]));
            assert(value_le(prices[i], prices[j]));
        } else {
            assert(value_lt(prices[i], prices[j]));
            assert(value_le(prices[j], prices[i]));
        }
    }
    if is_low_at(prices, i) && is_low_at(prices, j) && i != j {
        if i < j {
            assert(value_lt(prices[j], prices[i]));
            assert(value_le(prices[i], prices[j]));
        } else {
            assert(value_lt(prices[i], prices[j]));
            assert(value_le(prices[j], prices[i]));
        }
    }
}

impl NewPoolPrice {
    /// The candle over the prices that a pool showed during one block, in the
    /// order in which they were seen. Without a price there is no candle.
    pub fn try_new(lp_token: &Address, block: Block, prices: &Vec<Decimal>) -> (r: Result<
        NewPoolPrice,
        PumpError,
    >)
        ensures
            match r {
                Ok(candle) => {
                    &&& candle.pool@ == address_checksum(lp_token.bytes@)
                    &&& candle.time == block.timestamp
                    &&& is_candle_of(
                        price_views(prices@),
                        candle.open@,
                        candle.high@,
                        candle.low@,
                        candle.close@,
                    )
                    &&& value_le(candle.low@, candle.open@)
                    &&& value_le(candle.open@, candle.high@)
                    &&& value_le(candle.low@, candle.close@)
                    &&& value_le(candle.close@, candle.high@)
                },
                Err(e) => prices@.len() == 0 && e == PumpError::no_prices_spec(
                    block.number,
                    *lp_token,
                ),
            },
    {
        if prices.len() == 0 {
            return Err(PumpError::no_prices(block.number, *lp_token));
        }
        let ghost views = price_views(prices@);
        let open = prices[0].clone();
        let close = prices[prices.len() - 1].clone();
        let mut hi: usize = 0;
        let mut lo: usize = 0;
        let mut i: usize = 1;
        while i < prices.len()
            invariant
                1 <= i <= prices.len(),
                views == price_views(prices@),
                views.len() == prices.len(),
                is_high_at(views.take(i as int), hi as int),
                is_low_at(views.take(i as int), lo as int),
            decreases prices.len() - i,
        {
            let ghost seen = views.take(i as int);
            let ghost next = views.take(i + 1);
            assert(views[i as int] == prices@[i as int]@);
            assert(views[hi as int] == prices@[hi as int]@);
            assert(views[lo as int] == prices@[lo as int]@);
            if !prices[i].lt(&prices[hi]) {
                proof {
                    assert forall|j: int| 0 <= j < next.len() implies value_le(
                        #[trigger] next[j],
                        next[i as int],
                    ) by {
                        if j < i {
                            assert(value_le(seen[j], seen[hi as int]));
                            lemma_value_le_transitive(next[j], next[hi as int], next[i as int]);
                        }
                    }
                }
                hi = i;
            } else {
                proof {
                    assert forall|j: int| 0 <= j < next.len() implies value_le(
                        #[trigger] next[j],
                        next[hi as int],
                    ) by {
                        if j < i {
                            assert(value_le(seen[j], seen[hi as int]));
                        }
                    }
                    assert forall|j: int| hi < j < next.len() implies value_lt(
                        #[trigger] next[j],
                        next[hi as int],
                    ) by {
                        if j < i {
                            assert(value_lt(seen[j], seen[hi as int]));
                        }
                    }
                }
            }
            if prices[i].lt(&prices[lo]) {
                proof {
                    assert forall|j: int| 0 <= j < next.len() implies value_le(
                        next[i as int],
                        #[trigger] next[j],
                    ) by {
                        if j < i {
                            assert(value_le(seen[lo as int], seen[j]));
                            lemma_value_lt_le_transitive(next[i as int], next[lo as int], next[j]);
                        }
                    }
                    assert forall|j: int| 0 <= j < i implies value_lt(
                        next[i as int],
                        #[trigger] next[j],
                    ) by {
                        assert(value_le(seen[lo as int], seen[j]));
                        lemma_value_lt_le_transitive(next[i as int], next[lo as int], next[j]);
                    }
                }
                lo = i;
            } else {
                proof {
                    assert forall|j: int| 0 <= j < next.len() implies value_le(
                        next[lo as int],
                        #[trigger] next[j],
                    ) by {
                        if j < i {
                            assert(value_le(seen[lo as int], seen[j]));
                        }
                    }
                    assert forall|j: int| 0 <= j < lo implies value_lt(
                        next[lo as int],
                        #[trigger] next[j],
                    ) by {
                        assert(value_lt(seen[lo as int], seen[j]));
                    }
                }
            }
            i += 1;
        }
        assert(views.take(prices.len() as int) =~= views);
        let high = prices[hi].clone();
        let low = prices[lo].clone();
        let pool = lp_token.to_string();
        proof {
            assert(is_high_at(views, hi as int) && high@ == views[hi as int]);
            assert(is_low_at(views, lo as int) && low@ == views[lo as int]);
            lemma_candle_bounds(views, open@, high@, low@, close@);
        }
        Ok(NewPoolPrice { pool, time: block.timestamp, open, high, low, close })
    }
}

} // verus!
