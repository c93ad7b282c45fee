use pump::address::Address;
use pump::bigint::BigInteger;
use pump::client::pool::{parse_address, Pool};
use pump::contract::pair::{Swap, Sync};
use pump::db::models;
use pump::decimal::Decimal;
use pump::error::pump::PumpError;
use pump::uint::U256;

fn addr(n: u8) -> Address {
    Address { bytes: [n; 20] }
}

fn dec(n: u128) -> Decimal {
    Decimal::from_u128(n)
}

fn scaled(n: u128, scale: i64) -> Decimal {
    Decimal { unscaled: BigInteger::from_u128(n), scale }
}

fn swap(in0: u128, in1: u128, out0: u128, out1: u128) -> Swap {
    Swap {
        sender: addr(0x51),
        amount0_in: U256::from_u128(in0),
        amount1_in: U256::from_u128(in1),
        amount0_out: U256::from_u128(out0),
        amount1_out: U256::from_u128(out1),
        to: addr(0x52),
    }
}

fn pool_with(token_0: Address, token_1: Address) -> Pool {
    Pool { lp_token: addr(0xaa), token_0, token_1 }
}

#[test]
fn swap_price_of_nothing_moved_is_none() {
    assert!(Pool::swap_price(&swap(0, 0, 0, 0)).is_none());
}

#[test]
fn swap_price_is_none_when_both_tokens_left_the_pool() {
    assert!(Pool::swap_price(&swap(0, 0, 5, 7)).is_none());
    assert!(Pool::swap_price(&swap(1, 1, 5, 7)).is_none());
}

#[test]
fn swap_price_is_none_when_both_tokens_entered_the_pool() {
    assert!(Pool::swap_price(&swap(5, 7, 0, 0)).is_none());
    assert!(Pool::swap_price(&swap(5, 7, 1, 1)).is_none());
}

#[test]
fn swap_price_is_none_when_one_token_did_not_move() {
    assert!(Pool::swap_price(&swap(0, 7, 0, 0)).is_none());
    assert!(Pool::swap_price(&swap(0, 0, 9, 0)).is_none());
    assert!(Pool::swap_price(&swap(3, 7, 3, 0)).is_none());
    assert!(Pool::swap_price(&swap(3, 7, 10, 7)).is_none());
}

#[test]
fn swap_price_when_token_0_is_bought() {
    // 20 of token 1 go in, 10 of token 0 come out
    let (buy_0, amount_0, amount_1, price) = Pool::swap_price(&swap(0, 20, 10, 0)).unwrap();
    assert!(buy_0);
    assert!(amount_0.same_value(&dec(10)));
    assert!(amount_1.same_value(&dec(20).negated_whole()));
    assert!(price.same_value(&dec(2)));
}

#[test]
fn swap_price_when_token_0_is_sold() {
    // 10 of token 0 go in, 30 of token 1 come out
    let (buy_0, amount_0, amount_1, price) = Pool::swap_price(&swap(10, 0, 0, 30)).unwrap();
    assert!(!buy_0);
    assert!(amount_0.same_value(&dec(10).negated_whole()));
    assert!(amount_1.same_value(&dec(30)));
    assert!(price.same_value(&dec(3)));
}

#[test]
fn swap_price_nets_both_sides() {
    // net flow of token 0: 12 - 2 = 10 out; of token 1: 1 - 6 = 5 in
    let (buy_0, amount_0, amount_1, price) = Pool::swap_price(&swap(2, 6, 12, 1)).unwrap();
    assert!(buy_0);
    assert!(amount_0.same_value(&dec(10)));
    assert!(amount_1.same_value(&dec(5).negated_whole()));
    assert!(price.same_value(&scaled(5, 1)));
}

#[test]
fn swap_price_of_the_largest_amounts() {
    let max = U256 { le_bytes: [0xff; 32] };
    let s = Swap {
        sender: addr(1),
        amount0_in: max,
        amount1_in: U256::zero(),
        amount0_out: U256::zero(),
        amount1_out: max,
        to: addr(2),
    };
    let (buy_0, _, _, price) = Pool::swap_price(&s).unwrap();
    assert!(!buy_0);
    assert!(price.same_value(&dec(1)));
}

#[test]
fn sync_price_is_reserve_1_over_reserve_0() {
    let price = Pool::sync_price(&Sync { reserve0: 100, reserve1: 200 }).unwrap();
    assert!(price.same_value(&dec(2)));
    let price = Pool::sync_price(&Sync { reserve0: 200, reserve1: 100 }).unwrap();
    assert!(price.same_value(&scaled(5, 1)));
    let price = Pool::sync_price(&Sync { reserve0: 7, reserve1: 0 }).unwrap();
    assert!(price.is_zero());
}

#[test]
fn sync_price_of_an_empty_reserve_is_none() {
    assert!(Pool::sync_price(&Sync { reserve0: 0, reserve1: 200 }).is_none());
    assert!(Pool::sync_price(&Sync { reserve0: 0, reserve1: 0 }).is_none());
}

#[test]
fn fresh_pool_sync_shows_two_or_a_half() {
    let weth = addr(0xee);
    let token = addr(0x11);
    let sync = Sync { reserve0: 100, reserve1: 200 };

    let plain = pool_with(token, weth);
    let price = Pool::sync_price(&sync).unwrap();
    assert!(price.same_value(&dec(2)));
    let ui = plain.to_ui_price(weth, price);
    assert!(ui.same_value(&dec(2)));

    let flipped = pool_with(weth, token);
    let price = Pool::sync_price(&sync).unwrap();
    let ui = flipped.to_ui_price(weth, price);
    assert!(ui.same_value(&scaled(5, 1)));
}

#[test]
fn ui_price_twice_without_flip_is_the_price() {
    let weth = addr(0xee);
    let pool = pool_with(addr(0x11), weth);
    let p = scaled(12345, 3);
    let once = pool.to_ui_price(weth, p.clone());
    assert_eq!(once.scale, p.scale);
    assert_eq!(once.unscaled.magnitude, p.unscaled.magnitude);
    let twice = pool.to_ui_price(weth, once);
    assert_eq!(twice.scale, p.scale);
    assert_eq!(twice.unscaled.magnitude, p.unscaled.magnitude);
    assert_eq!(twice.unscaled.negative, p.unscaled.negative);
}

#[test]
fn ui_price_with_flip_is_one_over_the_price() {
    let weth = addr(0xee);
    let pool = pool_with(weth, addr(0x11));
    let once = pool.to_ui_price(weth, dec(4));
    assert!(once.same_value(&scaled(25, 2)));
    let expected = Decimal::one().div(&dec(4));
    assert!(once.same_value(&expected));
    // a price that divides evenly comes back after two turns
    let twice = pool.to_ui_price(weth, once);
    assert!(twice.same_value(&dec(4)));
}

#[test]
fn other_token_of_a_pool() {
    let weth = addr(0xee);
    let token = addr(0x11);
    let (other, weth_is_0) = pool_with(weth, token).other(weth);
    assert!(other == token);
    assert!(weth_is_0);
    let (other, weth_is_0) = pool_with(token, weth).other(weth);
    assert!(other == token);
    assert!(!weth_is_0);
    let (other, weth_is_0) = pool_with(token, addr(0x22)).other(weth);
    assert!(other == token);
    assert!(!weth_is_0);
}

#[test]
fn parse_address_reads_forty_digits() {
    let a = parse_address("0x5FbDB2315678afecb367f032d93F642f64180aa3").unwrap();
    assert_eq!(a.bytes[0], 0x5f);
    assert_eq!(a.bytes[1], 0xbd);
    assert_eq!(a.bytes[19], 0xa3);
    assert!(matches!(parse_address("0x1234"), Err(PumpError::InvalidAddress)));
    assert!(matches!(parse_address(""), Err(PumpError::InvalidAddress)));
}

fn row(address: &str, token_0: &str, token_1: &str) -> models::Pool {
    models::Pool {
        address: address.to_string(),
        chain_id: 31337,
        dex: "0x0000000000000000000000000000000000000001".to_string(),
        token_0: token_0.to_string(),
        token_1: token_1.to_string(),
        created_at: 1_700_000_000,
    }
}

#[test]
fn pool_of_a_stored_row() {
    let pool = Pool::try_from(row(
        "0x5FbDB2315678afecb367f032d93F642f64180aa3",
        "0x1111111111111111111111111111111111111111",
        "2222222222222222222222222222222222222222",
    ))
    .unwrap();
    assert_eq!(pool.lp_token.bytes[0], 0x5f);
    assert!(pool.token_0 == addr(0x11));
    assert!(pool.token_1 == addr(0x22));
}

#[test]
fn pool_of_a_row_with_a_bad_address_is_an_error() {
    let good = "0x1111111111111111111111111111111111111111";
    assert!(matches!(Pool::try_from(row("nonsense", good, good)), Err(PumpError::InvalidAddress)));
    assert!(matches!(Pool::try_from(row(good, "0x11", good)), Err(PumpError::InvalidAddress)));
    assert!(matches!(
        Pool::try_from(row(good, good, "0xzz11111111111111111111111111111111111111")),
        Err(PumpError::InvalidAddress)
    ));
}
