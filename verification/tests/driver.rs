use pump::address::{Address, B256};
use pump::address_map::AddressMap;
use pump::client::block::Block;
use pump::client::pool::Pool;
use pump::contract::topics::EventKind;
use pump::decimal::Decimal;
use pump::error::listener::ListenerError;
use pump::error::pump::PumpError;
use pump::listener::driver::{any_asks_resubscription, StreamEvent};
use pump::listener::handler::{Dispatch, Effect, Handled, LogHandler};
use pump::listener::log::RawLog;
use pump::listener::registry::PoolRegistry;

fn addr(n: u8) -> Address {
    Address { bytes: [n; 20] }
}

fn weth() -> Address {
    addr(0xee)
}

fn token() -> Address {
    addr(0x11)
}

fn pair() -> Address {
    addr(0xaa)
}

fn block(number: u64) -> Block {
    Block { number, timestamp: 1_700_000_000 + 12 * number as i64 }
}

fn word(x: u128) -> Vec<u8> {
    let mut w = vec![0u8; 16];
    w.extend_from_slice(&x.to_be_bytes());
    w
}

fn address_word(a: Address) -> Vec<u8> {
    let mut w = vec![0u8; 12];
    w.extend_from_slice(&a.bytes);
    w
}

fn raw(address: Address, kind: EventKind, words: Vec<Vec<u8>>, number: u64) -> RawLog {
    RawLog {
        address,
        topics: vec![kind.topic()],
        data: words.concat(),
        block_number: Some(number),
        transaction_hash: Some(B256 { bytes: [0x42; 32] }),
    }
}

fn sync(pool: Address, reserve0: u128, reserve1: u128, number: u64) -> RawLog {
    raw(pool, EventKind::Sync, vec![word(reserve0), word(reserve1)], number)
}

fn deployed(coin_id: u32, lp_token: Address, number: u64) -> RawLog {
    raw(addr(0x77), EventKind::DeployedToDex, vec![word(coin_id as u128), address_word(lp_token)], number)
}

fn fresh() -> LogHandler {
    LogHandler::new(31337, addr(0xd0), weth(), PoolRegistry::new())
}

fn with_pool() -> LogHandler {
    let mut pools = PoolRegistry::new();
    pools.register(Pool { lp_token: pair(), token_0: token(), token_1: weth() });
    LogHandler::new(31337, addr(0xd0), weth(), pools)
}

fn no_answers() -> AddressMap<(Address, Address)> {
    AddressMap::new()
}

#[test]
fn end_of_a_subscription_stops_the_listener() {
    let mut handler = with_pool();
    for event in [StreamEvent::HeadersEnded, StreamEvent::LogsEnded] {
        assert!(handler.lookups(&event).is_empty());
        let outcome = handler.step(event, &no_answers());
        assert!(outcome.stop);
        assert!(outcome.results.is_empty());
        assert!(outcome.candles.is_empty());
        assert!(outcome.watch.is_none());
    }
    assert_eq!(handler.lp_tokens().len(), 1);
}

#[test]
fn failing_log_does_not_stop_the_listener() {
    let mut handler = with_pool();
    let _ = handler.step(StreamEvent::Header(block(5)), &no_answers());
    let outcome = handler.step(StreamEvent::Log(sync(pair(), 0, 200, 5)), &no_answers());
    assert!(!outcome.stop);
    assert!(outcome.watch.is_none());
    assert_eq!(outcome.results.len(), 1);
    assert!(matches!(
        outcome.results[0],
        Err(PumpError::Listener(ListenerError::ZeroReserve(_)))
    ));
    let outcome = handler.step(StreamEvent::Log(sync(pair(), 100, 200, 5)), &no_answers());
    assert!(!outcome.stop);
    assert!(outcome.results[0].is_ok());
}

#[test]
fn step_on_a_log_uses_the_answer_it_asked_for() {
    let mut handler = fresh();
    let _ = handler.step(StreamEvent::Header(block(5)), &no_answers());
    let event = StreamEvent::Log(sync(pair(), 100, 200, 5));
    let asked = handler.lookups(&event);
    assert_eq!(asked.len(), 1);
    assert!(asked[0] == pair());
    let mut answers = AddressMap::new();
    answers.insert(addr(0xbb), (addr(1), addr(2)));
    answers.insert(pair(), (weth(), token()));
    let outcome = handler.step(event, &answers);
    assert!(outcome.results[0].is_ok());
    // a report of reserves asks for no new subscription, even for a new pool
    assert!(outcome.watch.is_none());
    let pool = handler.pools.get(&pair()).unwrap();
    assert!(pool.token_0 == weth());
    assert!(pool.token_1 == token());
    assert!(handler.pools.get(&addr(0xbb)).is_none());
}

#[test]
fn step_on_a_new_pool_gives_the_addresses_to_watch() {
    let mut handler = with_pool();
    let _ = handler.step(StreamEvent::Header(block(7)), &no_answers());
    let event = StreamEvent::Log(deployed(3, addr(0xbb), 7));
    let asked = handler.lookups(&event);
    assert_eq!(asked.len(), 1);
    assert!(asked[0] == addr(0xbb));
    let mut answers = AddressMap::new();
    answers.insert(addr(0xbb), (token(), weth()));
    let outcome = handler.step(event, &answers);
    assert!(!outcome.stop);
    let watch = outcome.watch.unwrap();
    assert_eq!(watch.len(), 2);
    assert!(watch[0] == pair());
    assert!(watch[1] == addr(0xbb));

    // the same news again changes nothing in what is watched
    let again = handler.step(StreamEvent::Log(deployed(3, addr(0xbb), 7)), &no_answers());
    assert!(again.watch.is_none());
    assert_eq!(again.results[0].as_ref().unwrap().dispatch, Dispatch::Continue);
}

#[test]
fn step_on_a_header_takes_up_what_waited_and_flushes() {
    let mut handler = with_pool();
    let first = handler.step(StreamEvent::Log(sync(pair(), 100, 300, 9)), &no_answers());
    assert!(first.results[0].as_ref().unwrap().effects.is_empty());
    let news = handler.step(StreamEvent::Log(deployed(3, addr(0xbb), 9)), &no_answers());
    assert!(news.watch.is_none());

    let event = StreamEvent::Header(block(9));
    let asked = handler.lookups(&event);
    assert_eq!(asked.len(), 1);
    assert!(asked[0] == addr(0xbb));
    let mut answers = AddressMap::new();
    answers.insert(addr(0xbb), (token(), weth()));
    let outcome = handler.step(event, &answers);
    assert!(!outcome.stop);
    assert_eq!(outcome.results.len(), 2);
    assert!(matches!(
        outcome.results[0].as_ref().unwrap().effects[0],
        Effect::UpsertDeployedPool { .. }
    ));
    assert!(outcome.results[1].as_ref().unwrap().effects.is_empty());
    assert!(outcome.candles.is_empty());
    let watch = outcome.watch.unwrap();
    assert_eq!(watch.len(), 2);
    assert!(watch[1] == addr(0xbb));

    let next = handler.step(StreamEvent::Header(block(10)), &no_answers());
    assert!(next.results.is_empty());
    assert!(next.watch.is_none());
    assert_eq!(next.candles.len(), 1);
    assert_eq!(next.candles[0].pool, pair().to_string());
    assert!(next.candles[0].close.same_value(&Decimal::from_u128(3)));
}

#[test]
fn resubscription_is_asked_by_any_result() {
    let quiet = || Ok(Handled { dispatch: Dispatch::Continue, effects: Vec::new() });
    let loud = || Ok(Handled { dispatch: Dispatch::RequiresResubscription, effects: Vec::new() });
    let failed = || Err(PumpError::InvalidAddress);
    assert!(!any_asks_resubscription(&Vec::new()));
    assert!(!any_asks_resubscription(&vec![quiet(), failed(), quiet()]));
    assert!(any_asks_resubscription(&vec![quiet(), failed(), loud()]));
    assert!(any_asks_resubscription(&vec![loud()]));
}
