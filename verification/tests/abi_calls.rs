use alloy_primitives::keccak256;
use pump::abi::{has_words, push_address_word, push_u32_word, read_address, read_u112, read_u256, read_u32};
use pump::address::{Address, B256};
use pump::client::coin::get_coin_calldata;
use pump::client::pool::parse_address;
use pump::contract::factory::get_pair_calldata;
use pump::contract::pair::{address_of_topic, get_token0_calldata, get_token1_calldata, Swap, Sync};
use pump::contract::pump::{
    deploy_graduated_bytecode, CoinCreated, CoinGraduated, DeployedToDex, WeiInUpdated,
};
use pump::contract::topics::EventKind;
use pump::error::listener::{DecodeError, ListenerError};
use pump::error::pump::PumpError;
use pump::listener::log::RawLog;
use pump::uint::U256;

fn addr(n: u8) -> Address {
    Address { bytes: [n; 20] }
}

fn selector(signature: &str) -> Vec<u8> {
    keccak256(signature.as_bytes())[..4].to_vec()
}

fn word(x: u128) -> Vec<u8> {
    let mut w = vec![0u8; 16];
    w.extend_from_slice(&x.to_be_bytes());
    w
}

fn address_word(a: Address) -> Vec<u8> {
    let mut w = vec![0u8; 12];
    w.extend_from_slice(&a.bytes);
    w
}

fn raw(topics: Vec<B256>, words: Vec<Vec<u8>>) -> RawLog {
    RawLog {
        address: addr(0xaa),
        topics,
        data: words.concat(),
        block_number: Some(17),
        transaction_hash: Some(B256 { bytes: [0x42; 32] }),
    }
}

fn all_kinds() -> [(EventKind, &'static str); 6] {
    [
        (EventKind::CoinCreated, "CoinCreated(uint32)"),
        (EventKind::WeiInUpdated, "WeiInUpdated(uint32,uint256)"),
        (EventKind::CoinGraduated, "CoinGraduated(uint32)"),
        (EventKind::DeployedToDex, "DeployedToDex(uint32,address)"),
        (EventKind::Swap, "Swap(address,uint256,uint256,uint256,uint256,address)"),
        (EventKind::Sync, "Sync(uint112,uint112)"),
    ]
}

#[test]
fn coin_test_calldata() {
    let contract_address = parse_address("0x5FbDB2315678afecb367f032d93F642f64180aa3").unwrap();
    assert_eq!(contract_address.to_string(), "0x5FbDB2315678afecb367f032d93F642f64180aa3");
    let calldata = get_coin_calldata(0);
    let mut expected = vec![0x3e, 0x0a, 0x6f, 0xb0];
    expected.extend_from_slice(&[0u8; 32]);
    assert_eq!(calldata, expected);
}

#[test]
fn abi_test_calldata() {
    let calldata = get_coin_calldata(0x0102_0304);
    assert_eq!(calldata.len(), 36);
    assert_eq!(&calldata[..4], &selector("getCoin(uint32)")[..]);
    assert!(calldata[4..32].iter().all(|b| *b == 0));
    assert_eq!(&calldata[32..], &[1, 2, 3, 4]);
}

#[test]
fn calldata_of_the_largest_coin_id() {
    let calldata = get_coin_calldata(u32::MAX);
    assert_eq!(&calldata[32..], &[0xff, 0xff, 0xff, 0xff]);
    assert!(calldata[4..32].iter().all(|b| *b == 0));
}

#[test]
fn deploy_graduated_call() {
    let calldata = deploy_graduated_bytecode(258);
    assert_eq!(&calldata[..4], &selector("deployGraduated(uint32)")[..]);
    assert_eq!(&calldata[4..], &word(258)[..]);
}

#[test]
fn get_pair_call() {
    let a = addr(0x11);
    let b = addr(0x22);
    let calldata = get_pair_calldata(a, b);
    let mut expected = selector("getPair(address,address)");
    expected.extend(address_word(a));
    expected.extend(address_word(b));
    assert_eq!(calldata, expected);
}

#[test]
fn token_calls() {
    assert_eq!(get_token0_calldata(), selector("token0()"));
    assert_eq!(get_token1_calldata(), selector("token1()"));
}

#[test]
fn topics_are_the_digests_of_the_signatures() {
    for (kind, signature) in all_kinds() {
        let digest = keccak256(signature.as_bytes());
        assert_eq!(kind.topic().bytes, digest.0, "{}", signature);
    }
}

#[test]
fn kind_of_a_topic() {
    for (kind, _) in all_kinds() {
        assert_eq!(EventKind::from_topic(&kind.topic()), Some(kind));
    }
    assert_eq!(EventKind::from_topic(&B256 { bytes: [0; 32] }), None);
    let mut almost = EventKind::Sync.topic();
    almost.bytes[31] ^= 1;
    assert_eq!(EventKind::from_topic(&almost), None);
}

#[test]
fn words_are_written_and_read_back() {
    let mut out = vec![0xaa];
    push_u32_word(&mut out, 0xdead_beef);
    push_address_word(&mut out, &addr(0x33));
    assert_eq!(out.len(), 65);
    assert_eq!(out[0], 0xaa);
    let data = out[1..].to_vec();
    assert!(has_words(&data, 2));
    assert!(!has_words(&data, 3));
    assert!(has_words(&data, 0));
    assert_eq!(read_u32(&data, 0), 0xdead_beef);
    assert!(read_address(&data, 1) == addr(0x33));
}

#[test]
fn read_u256_takes_the_whole_word() {
    let mut data = vec![0u8; 32];
    data[0] = 0x80;
    data[31] = 0x01;
    let x = read_u256(&data, 0);
    assert_eq!(x.le_bytes[0], 0x01);
    assert_eq!(x.le_bytes[31], 0x80);
    assert!(x.le_bytes[1..31].iter().all(|b| *b == 0));
}

#[test]
fn read_u112_takes_the_low_fourteen_bytes() {
    let mut data = vec![0xffu8; 64];
    data.extend(word(0));
    assert_eq!(read_u112(&data, 0), (1u128 << 112) - 1);
    assert_eq!(read_u112(&data, 2), 0);
    let data = word(1_000_000_007);
    assert_eq!(read_u112(&data, 0), 1_000_000_007);
}

#[test]
fn read_u32_ignores_the_high_bytes() {
    let mut data = vec![0xffu8; 32];
    data[28] = 0;
    data[29] = 0;
    data[30] = 1;
    data[31] = 2;
    assert_eq!(read_u32(&data, 0), 258);
}

#[test]
fn address_of_a_topic() {
    let mut bytes = [0xffu8; 32];
    bytes[12..].copy_from_slice(&addr(0x44).bytes);
    assert!(address_of_topic(&B256 { bytes }) == addr(0x44));
}

#[test]
fn decode_coin_created() {
    let log = raw(vec![EventKind::CoinCreated.topic()], vec![word(7)]);
    let read = CoinCreated::decode(&log).unwrap();
    assert_eq!(read.data.coin_id, 7);
    assert!(read.address == log.address);
    assert_eq!(read.block_number, Some(17));
    assert!(read.transaction_hash == log.transaction_hash);
}

#[test]
fn decode_coin_graduated() {
    let log = raw(vec![EventKind::CoinGraduated.topic()], vec![word(u32::MAX as u128)]);
    assert_eq!(CoinGraduated::decode(&log).unwrap().data.coin_id, u32::MAX);
}

#[test]
fn decode_wei_in_updated() {
    let log = raw(vec![EventKind::WeiInUpdated.topic()], vec![word(3), word(5000)]);
    let read = WeiInUpdated::decode(&log).unwrap();
    assert_eq!(read.data.coin_id, 3);
    assert_eq!(read.data.total_wei_in.le_bytes, U256::from_u128(5000).le_bytes);
}

#[test]
fn decode_deployed_to_dex() {
    let log = raw(vec![EventKind::DeployedToDex.topic()], vec![word(3), address_word(addr(0x77))]);
    let read = DeployedToDex::decode(&log).unwrap();
    assert_eq!(read.data.coin_id, 3);
    assert!(read.data.lp_token == addr(0x77));
}

#[test]
fn decode_sync() {
    let log = raw(vec![EventKind::Sync.topic()], vec![word(100), word(200)]);
    let read = Sync::decode(&log).unwrap();
    assert_eq!(read.data.reserve0, 100);
    assert_eq!(read.data.reserve1, 200);
}

#[test]
fn decode_swap() {
    let mut sender = [0u8; 32];
    sender[12..].copy_from_slice(&addr(0x51).bytes);
    let mut to = [0u8; 32];
    to[12..].copy_from_slice(&addr(0x52).bytes);
    let log = raw(
        vec![EventKind::Swap.topic(), B256 { bytes: sender }, B256 { bytes: to }],
        vec![word(1), word(2), word(3), word(4)],
    );
    let read = Swap::decode(&log).unwrap();
    assert!(read.data.sender == addr(0x51));
    assert!(read.data.to == addr(0x52));
    assert_eq!(read.data.amount0_in.le_bytes, U256::from_u128(1).le_bytes);
    assert_eq!(read.data.amount1_in.le_bytes, U256::from_u128(2).le_bytes);
    assert_eq!(read.data.amount0_out.le_bytes, U256::from_u128(3).le_bytes);
    assert_eq!(read.data.amount1_out.le_bytes, U256::from_u128(4).le_bytes);
}

#[test]
fn decode_refuses_a_wrong_number_of_topics() {
    let log = raw(vec![EventKind::Swap.topic()], vec![word(1), word(2), word(3), word(4)]);
    assert!(matches!(
        Swap::decode(&log),
        Err(PumpError::Listener(ListenerError::LogDecodeError(DecodeError::TopicCount)))
    ));
    let log = raw(vec![EventKind::Sync.topic(), EventKind::Sync.topic()], vec![word(1), word(2)]);
    assert!(matches!(
        Sync::decode(&log),
        Err(PumpError::Listener(ListenerError::LogDecodeError(DecodeError::TopicCount)))
    ));
}

#[test]
fn decode_refuses_short_data() {
    let log = raw(vec![EventKind::WeiInUpdated.topic()], vec![word(1)]);
    assert!(matches!(
        WeiInUpdated::decode(&log),
        Err(PumpError::Listener(ListenerError::LogDecodeError(DecodeError::DataTooShort)))
    ));
    let log = raw(vec![EventKind::CoinCreated.topic()], Vec::new());
    assert!(matches!(
        CoinCreated::decode(&log),
        Err(PumpError::Listener(ListenerError::LogDecodeError(DecodeError::DataTooShort)))
    ));
}

#[test]
fn decode_looks_at_the_topics_before_the_data() {
    let log = raw(Vec::new(), Vec::new());
    assert!(matches!(
        DeployedToDex::decode(&log),
        Err(PumpError::Listener(ListenerError::LogDecodeError(DecodeError::TopicCount)))
    ));
}

#[test]
fn raw_log_first_topic_and_shape() {
    let log = raw(vec![EventKind::Sync.topic()], vec![word(1), word(2)]);
    assert!(log.topic0() == Some(EventKind::Sync.topic()));
    assert!(log.check_shape(1, 2).is_ok());
    assert!(log.check_shape(1, 3).is_err());
    assert!(log.check_shape(2, 2).is_err());
    assert!(raw(Vec::new(), Vec::new()).topic0().is_none());
    let read = log.with_data(5u8);
    assert_eq!(read.data, 5);
    assert_eq!(read.block_number, Some(17));
}
