use crate::abi::{address_of_word, be_value, read_u112, read_u256, word_at};
use crate::address::{Address, B256};
use crate::error::pump::PumpError;
use crate::listener::log::{has_shape, shape_error, Log, RawLog};
use crate::uint::U256;
use vstd::prelude::*;

verus! {

/// A trade against a pair: what went into the pool and what came out of it, of
/// each of its two tokens.
#[derive(Clone, Copy, Debug)]
pub struct Swap {
    pub sender: Address,
    pub amount0_in: U256,
    pub amount1_in: U256,
    pub amount0_out: U256,
    pub amount1_out: U256,
    pub to: Address,
}

/// The reserves of a pair after something changed them. The contract counts
/// them in 112 bits.
#[derive(Clone, Copy, Debug)]
pub struct Sync {
    pub reserve0: u128,
    pub reserve1: u128,
}

/// The call that asks a pair for its first token.
pub fn get_token0_calldata() -> (r: Vec<u8>)
    ensures
        r@ == seq![0x0du8, 0xfe, 0x16, 0x81],
{
    let mut out: Vec<u8> = Vec::new();
    out.push(0x0d);
    out.push(0xfe);
    out.push(0x16);
    out.push(0x81);
    out
}

/// The call that asks a pair for its second token.
pub fn get_token1_calldata() -> (r: Vec<u8>)
    ensures
        r@ == seq![0xd2u8, 0x12, 0x20, 0xa7],
{
    let mut out: Vec<u8> = Vec::new();
    out.push(0xd2);
    out.push(0x12);
    out.push(0x20);
    out.push(0xa7);
    out
}

/// The address in the low twenty bytes of a topic.
pub fn address_of_topic(topic: &B256) -> (r: Address)
    ensures
        r.bytes@ == address_of_word(topic.bytes@),
{
    let mut bytes = [0u8; 20];
    let mut i: usize = 0;
    while i < 20
        invariant
            i <= 20,
            forall|j: int| 0 <= j < i ==> bytes@[j] == topic.bytes@[12 + j],
        decreases 20 - i,
    {
        bytes[i] = topic.bytes[12 + i];
        i += 1;
    }
    assert(bytes@ =~= address_of_word(topic.bytes@));
    Address { bytes }
}

/// Whether `read` is what the log `log` says as a `Swap`.
pub open spec fn swap_reads(log: RawLog, read: Log<Swap>) -> bool {
    &&& read.address == log.address
    &&& read.block_number == log.block_number
    &&& read.transaction_hash == log.transaction_hash
    &&& read.data.sender.bytes@ == address_of_word(log.topics@[1].bytes@)
    &&& read.data.to.bytes@ == address_of_word(log.topics@[2].bytes@)
    &&& read.data.amount0_in.le_bytes@ == word_at(log.data@, 0).reverse()
    &&& read.data.amount1_in.le_bytes@ == word_at(log.data@, 1).reverse()
    &&& read.data.amount0_out.le_bytes@ == word_at(log.data@, 2).reverse()
    &&& read.data.amount1_out.le_bytes@ == word_at(log.data@, 3).reverse()
}

impl Swap {
    /// Reads a swap out of a log: the sender and the receiver stand in the
    /// second and third topic, the four amounts in the data, in the order
    /// in 0, in 1, out 0, out 1.
    pub fn decode(log: &RawLog) -> (r: Result<Log<Swap>, PumpError>)
        ensures
            match r {
                Ok(read) => has_shape(*log, 3, 4) && swap_reads(*log, read),
                Err(e) => !has_shape(*log, 3, 4) && e == shape_error(*log, 3),
            },
    {
        match log.check_shape(3, 4) {
            Ok(_) => {},
            Err(e) => {
                return Err(e);
            },
        }
        let swap = Swap {
            sender: address_of_topic(&log.topics[1]),
            amount0_in: read_u256(&log.data, 0),
            amount1_in: read_u256(&log.data, 1),
            amount0_out: read_u256(&log.data, 2),
            amount1_out: read_u256(&log.data, 3),
            to: address_of_topic(&log.topics[2]),
        };
        Ok(log.with_data(swap))
    }
}

/// Whether `read` is what the log `log` says as a `Sync`.
pub open spec fn sync_reads(log: RawLog, read: Log<Sync>) -> bool {
    &&& read.address == log.address
    &&& read.block_number == log.block_number
    &&& read.transaction_hash == log.transaction_hash
    &&& read.data.reserve0 == be_value(word_at(log.data@, 0).subrange(18, 32))
    &&& read.data.reserve1 == be_value(word_at(log.data@, 1).subrange(18, 32))
}

impl Sync {
    /// Reads a reserve report out of a log: the two reserves stand in the
    /// data.
    pub fn decode(log: &RawLog) -> (r: Result<Log<Sync>, PumpError>)
        ensures
            match r {
                Ok(read) => has_shape(*log, 1, 2) && sync_reads(*log, read),
                Err(e) => !has_shape(*log, 1, 2) && e == shape_error(*log, 1),
            },
    {
        match log.check_shape(1, 2) {
            Ok(_) => {},
            Err(e) => {
                return Err(e);
            },
        }
        let sync = Sync { reserve0: read_u112(&log.data, 0), reserve1: read_u112(&log.data, 1) };
        Ok(log.with_data(sync))
    }
}

} // verus!
