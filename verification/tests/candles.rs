use pump::address::Address;
use pump::bigint::BigInteger;
use pump::client::block::Block;
use pump::db::models::NewPoolPrice;
use pump::decimal::Decimal;
use pump::error::listener::ListenerError;
use pump::error::pump::PumpError;
use pump::listener::accumulator::CandleAccumulator;

fn addr(n: u8) -> Address {
    Address { bytes: [n; 20] }
}

fn dec(n: u128) -> Decimal {
    Decimal::from_u128(n)
}

fn scaled(n: u128, scale: i64) -> Decimal {
    Decimal { unscaled: BigInteger::from_u128(n), scale }
}

fn block(number: u64) -> Block {
    Block { number, timestamp: 1_700_000_000 + 12 * number as i64 }
}

fn prices(values: &[u128]) -> Vec<Decimal> {
    values.iter().map(|v| dec(*v)).collect()
}

fn assert_candle(candle: &NewPoolPrice, open: u128, high: u128, low: u128, close: u128) {
    assert!(candle.open.same_value(&dec(open)), "open of {:?}", candle);
    assert!(candle.high.same_value(&dec(high)), "high of {:?}", candle);
    assert!(candle.low.same_value(&dec(low)), "low of {:?}", candle);
    assert!(candle.close.same_value(&dec(close)), "close of {:?}", candle);
}

fn assert_bounds(candle: &NewPoolPrice) {
    assert!(candle.low.le(&candle.open));
    assert!(candle.open.le(&candle.high));
    assert!(candle.low.le(&candle.close));
    assert!(candle.close.le(&candle.high));
}

#[test]
fn candle_of_no_price_is_an_error() {
    let pool = addr(0xaa);
    let r = NewPoolPrice::try_new(&pool, block(7), &Vec::new());
    match r {
        Err(PumpError::Listener(ListenerError::NoPrices(number, lp))) => {
            assert_eq!(number, 7);
            assert!(lp == pool);
        },
        other => panic!("no candle was to be made: {:?}", other),
    }
}

#[test]
fn candle_of_one_price() {
    let pool = addr(0xaa);
    let candle = NewPoolPrice::try_new(&pool, block(7), &prices(&[42])).unwrap();
    assert_candle(&candle, 42, 42, 42, 42);
    assert_eq!(candle.time, block(7).timestamp);
    assert_eq!(candle.pool, pool.to_string());
}

#[test]
fn candle_of_many_prices() {
    let pool = addr(0xaa);
    let candle = NewPoolPrice::try_new(&pool, block(1), &prices(&[3, 1, 4, 1, 5, 9, 2, 6])).unwrap();
    assert_candle(&candle, 3, 9, 1, 6);
    assert_bounds(&candle);
}

#[test]
fn candle_compares_numbers_of_different_scale() {
    let pool = addr(0xaa);
    // 0.5, 0.25, 2, 1.5
    let list = vec![scaled(5, 1), scaled(25, 2), dec(2), scaled(15, 1)];
    let candle = NewPoolPrice::try_new(&pool, block(1), &list).unwrap();
    assert!(candle.open.same_value(&scaled(5, 1)));
    assert!(candle.high.same_value(&dec(2)));
    assert!(candle.low.same_value(&scaled(25, 2)));
    assert!(candle.close.same_value(&scaled(15, 1)));
    assert_bounds(&candle);
}

#[test]
fn candle_takes_the_last_of_equal_highs_and_the_first_of_equal_lows() {
    let pool = addr(0xaa);
    // 2.0 and 2 are the same number written differently, and so are 1.0 and 1
    let list = vec![scaled(10, 1), dec(2), dec(1), scaled(20, 1)];
    let candle = NewPoolPrice::try_new(&pool, block(1), &list).unwrap();
    assert_eq!(candle.high.scale, 1);
    assert_eq!(candle.low.scale, 1);
    assert_bounds(&candle);
}

#[test]
fn candle_bounds_hold_for_many_lists() {
    let pool = addr(0xaa);
    let lists: Vec<Vec<u128>> = vec![
        vec![1],
        vec![1, 2],
        vec![2, 1],
        vec![5, 5, 5],
        vec![1, 2, 3, 4, 5],
        vec![5, 4, 3, 2, 1],
        vec![3, 9, 1, 9, 1, 3],
        vec![0, u128::MAX, 1],
    ];
    for list in lists {
        let candle = NewPoolPrice::try_new(&pool, block(3), &prices(&list)).unwrap();
        assert_bounds(&candle);
        assert!(candle.open.same_value(&dec(list[0])));
        assert!(candle.close.same_value(&dec(list[list.len() - 1])));
        assert!(candle.high.same_value(&dec(*list.iter().max().unwrap())));
        assert!(candle.low.same_value(&dec(*list.iter().min().unwrap())));
    }
}

#[test]
fn flush_waits_for_the_next_block() {
    let pool = addr(0xaa);
    let mut acc = CandleAccumulator::new();
    acc.record(block(5), pool, dec(2));
    acc.record(block(5), pool, dec(3));
    // the header of block 5 confirms block 4, for which nothing was recorded
    let none = acc.confirm_and_flush(5, 1);
    assert!(none.is_empty());
    // the header of block 6 confirms block 5
    let candles = acc.confirm_and_flush(6, 1);
    assert_eq!(candles.len(), 1);
    assert_candle(&candles[0], 2, 3, 2, 3);
    assert_eq!(candles[0].time, block(5).timestamp);
    assert_eq!(candles[0].pool, pool.to_string());
    // and it is flushed once only
    assert!(acc.confirm_and_flush(6, 1).is_empty());
}

#[test]
fn flush_leaves_the_newer_block_alone() {
    let pool = addr(0xaa);
    let mut acc = CandleAccumulator::new();
    acc.record(block(5), pool, dec(2));
    acc.record(block(6), pool, dec(8));
    acc.record(block(6), pool, dec(4));
    let candles = acc.confirm_and_flush(6, 1);
    assert_eq!(candles.len(), 1);
    assert_candle(&candles[0], 2, 2, 2, 2);
    assert_eq!(candles[0].time, block(5).timestamp);
    // what was recorded for block 6 is still there for the header of block 7
    let candles = acc.confirm_and_flush(7, 1);
    assert_eq!(candles.len(), 1);
    // it opens with the close of block 5
    assert_candle(&candles[0], 2, 8, 2, 4);
    assert_eq!(candles[0].time, block(6).timestamp);
}

#[test]
fn candle_opens_with_the_close_of_the_block_before() {
    let pool = addr(0xaa);
    let mut acc = CandleAccumulator::new();
    acc.record(block(10), pool, dec(5));
    acc.record(block(10), pool, dec(3));
    let first = acc.confirm_and_flush(11, 1);
    assert_eq!(first.len(), 1);
    assert_candle(&first[0], 5, 5, 3, 3);
    acc.record(block(11), pool, dec(7));
    acc.record(block(11), pool, dec(6));
    let second = acc.confirm_and_flush(12, 1);
    assert_eq!(second.len(), 1);
    assert!(second[0].open.same_value(&first[0].close));
    assert_candle(&second[0], 3, 7, 3, 6);
}

#[test]
fn carried_close_is_for_its_own_pool_only() {
    let a = addr(0xaa);
    let b = addr(0xbb);
    let mut acc = CandleAccumulator::new();
    acc.record(block(10), a, dec(5));
    let _ = acc.confirm_and_flush(11, 1);
    acc.record(block(11), b, dec(9));
    let candles = acc.confirm_and_flush(12, 1);
    assert_eq!(candles.len(), 1);
    assert_eq!(candles[0].pool, b.to_string());
    assert_candle(&candles[0], 9, 9, 9, 9);
}

#[test]
fn flush_keeps_the_order_in_which_pools_showed_up() {
    let a = addr(0xaa);
    let b = addr(0xbb);
    let c = addr(0xcc);
    let mut acc = CandleAccumulator::new();
    acc.record(block(3), b, dec(1));
    acc.record(block(3), a, dec(2));
    acc.record(block(3), b, dec(3));
    acc.record(block(3), c, dec(4));
    let candles = acc.confirm_and_flush(4, 1);
    assert_eq!(candles.len(), 3);
    assert_eq!(candles[0].pool, b.to_string());
    assert_candle(&candles[0], 1, 3, 1, 3);
    assert_eq!(candles[1].pool, a.to_string());
    assert_candle(&candles[1], 2, 2, 2, 2);
    assert_eq!(candles[2].pool, c.to_string());
    assert_candle(&candles[2], 4, 4, 4, 4);
}

#[test]
fn flush_before_the_depth_is_reached_does_nothing() {
    let pool = addr(0xaa);
    let mut acc = CandleAccumulator::new();
    acc.record(block(0), pool, dec(2));
    assert!(acc.confirm_and_flush(0, 1).is_empty());
    assert!(acc.confirm_and_flush(2, 3).is_empty());
    let candles = acc.confirm_and_flush(1, 1);
    assert_eq!(candles.len(), 1);
    assert_candle(&candles[0], 2, 2, 2, 2);
}

#[test]
fn flush_with_a_deeper_confirmation() {
    let pool = addr(0xaa);
    let mut acc = CandleAccumulator::new();
    acc.record(block(5), pool, dec(2));
    assert!(acc.confirm_and_flush(6, 3).is_empty());
    assert!(acc.confirm_and_flush(7, 3).is_empty());
    let candles = acc.confirm_and_flush(8, 3);
    assert_eq!(candles.len(), 1);
    assert_candle(&candles[0], 2, 2, 2, 2);
}

#[test]
fn flush_candle_of_nothing_is_an_error() {
    let pool = addr(0xaa);
    let mut acc = CandleAccumulator::new();
    let r = acc.flush_candle(pool, Vec::new(), block(9));
    match r {
        Err(PumpError::Listener(ListenerError::NoPrices(number, lp))) => {
            assert_eq!(number, 9);
            assert!(lp == pool);
        },
        other => panic!("no candle was to be made: {:?}", other),
    }
}

#[test]
fn flush_candle_uses_up_the_carried_close() {
    let pool = addr(0xaa);
    let mut acc = CandleAccumulator::new();
    let first = acc.flush_candle(pool, prices(&[4, 6]), block(9)).unwrap();
    assert_candle(&first, 4, 6, 4, 6);
    // the close of block 9 alone makes the candle of block 10
    let second = acc.flush_candle(pool, Vec::new(), block(10)).unwrap();
    assert_candle(&second, 6, 6, 6, 6);
    assert_eq!(second.time, block(10).timestamp);
    // and it is gone from block 10 after that
    let third = acc.flush_candle(pool, prices(&[1]), block(10)).unwrap();
    assert_candle(&third, 1, 1, 1, 1);
}
