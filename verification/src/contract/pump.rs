use crate::abi::{
    address_of_word, push_u32_word, read_address, read_u256, read_u32, u32_of_word, word_at,
    word_of_u32,
};
use crate::address::Address;
use crate::error::pump::PumpError;
use crate::listener::log::{has_shape, shape_error, Log, RawLog};
use crate::uint::U256;
use vstd::prelude::*;

verus! {

/// A coin was created on the launch contract.
#[derive(Clone, Copy, Debug)]
pub struct CoinCreated {
    pub coin_id: u32,
}

/// Somebody bought into a coin; the total paid in so far, in wei.
#[derive(Clone, Copy, Debug)]
pub struct WeiInUpdated {
    pub coin_id: u32,
    pub total_wei_in: U256,
}

/// A coin has sold out and may go to the exchange.
#[derive(Clone, Copy, Debug)]
pub struct CoinGraduated {
    pub coin_id: u32,
}

/// A graduated coin was given a pool on the exchange.
#[derive(Clone, Copy, Debug)]
pub struct DeployedToDex {
    pub coin_id: u32,
    pub lp_token: Address,
}

/// The call that tells the launch contract to take a graduated coin to the
/// exchange.
pub fn deploy_graduated_bytecode(coin_id: u32) -> (r: Vec<u8>)
    ensures
        r@ == seq![0x78u8, 0x91, 0xd8, 0xdd] + word_of_u32(coin_id),
{
    let mut out: Vec<u8> = Vec::new();
    out.push(0x78);
    out.push(0x91);
    out.push(0xd8);
    out.push(0xdd);
    push_u32_word(&mut out, coin_id);
    out
}

/// Whether `read` is what the log `log` says as a `CoinCreated`.
pub open spec fn coin_created_reads(log: RawLog, read: Log<CoinCreated>) -> bool {
    &&& read.address == log.address
    &&& read.block_number == log.block_number
    &&& read.transaction_hash == log.transaction_hash
    &&& read.data.coin_id == u32_of_word(word_at(log.data@, 0))
}

impl CoinCreated {
    /// Reads the creation of a coin out of a log: the coin stands in the data.
    pub fn decode(log: &RawLog) -> (r: Result<Log<CoinCreated>, PumpError>)
        ensures
            match r {
                Ok(read) => has_shape(*log, 1, 1) && coin_created_reads(*log, read),
                Err(e) => !has_shape(*log, 1, 1) && e == shape_error(*log, 1),
            },
    {
        match log.check_shape(1, 1) {
            Ok(_) => {},
            Err(e) => {
                return Err(e);
            },
        }
        let event = CoinCreated { coin_id: read_u32(&log.data, 0) };
        Ok(log.with_data(event))
    }
}

/// Whether `read` is what the log `log` says as a `WeiInUpdated`.
pub open spec fn wei_in_updated_reads(log: RawLog, read: Log<WeiInUpdated>) -> bool {
    &&& read.address == log.address
    &&& read.block_number == log.block_number
    &&& read.transaction_hash == log.transaction_hash
    &&& read.data.coin_id == u32_of_word(word_at(log.data@, 0))
    &&& read.data.total_wei_in.le_bytes@ == word_at(log.data@, 1).reverse()
}

impl WeiInUpdated {
    /// Reads a payment out of a log: the coin and the new total stand in the
    /// data.
    pub fn decode(log: &RawLog) -> (r: Result<Log<WeiInUpdated>, PumpError>)
        ensures
            match r {
                Ok(read) => has_shape(*log, 1, 2) && wei_in_updated_reads(*log, read),
                Err(e) => !has_shape(*log, 1, 2) && e == shape_error(*log, 1),
            },
    {
        match log.check_shape(1, 2) {
            Ok(_) => {},
            Err(e) => {
                return Err(e);
            },
        }
        let event = WeiInUpdated {
            coin_id: read_u32(&log.data, 0),
            total_wei_in: read_u256(&log.data, 1),
        };
        Ok(log.with_data(event))
    }
}

/// Whether `read` is what the log `log` says as a `CoinGraduated`.
pub open spec fn coin_graduated_reads(log: RawLog, read: Log<CoinGraduated>) -> bool {
    &&& read.address == log.address
    &&& read.block_number == log.block_number
    &&& read.transaction_hash == log.transaction_hash
    &&& read.data.coin_id == u32_of_word(word_at(log.data@, 0))
}

impl CoinGraduated {
    /// Reads the graduation of a coin out of a log: the coin stands in the
    /// data.
    pub fn decode(log: &RawLog) -> (r: Result<Log<CoinGraduated>, PumpError>)
        ensures
            match r {
                Ok(read) => has_shape(*log, 1, 1) && coin_graduated_reads(*log, read),
                Err(e) => !has_shape(*log, 1, 1) && e == shape_error(*log, 1),
            },
    {
        match log.check_shape(1, 1) {
            Ok(_) => {},
            Err(e) => {
                return Err(e);
            },
        }
        let event = CoinGraduated { coin_id: read_u32(&log.data, 0) };
        Ok(log.with_data(event))
    }
}

/// Whether `read` is what the log `log` says as a `DeployedToDex`.
pub open spec fn deployed_to_dex_reads(log: RawLog, read: Log<DeployedToDex>) -> bool {
    &&& read.address == log.address
    &&& read.block_number == log.block_number
    &&& read.transaction_hash == log.transaction_hash
    &&& read.data.coin_id == u32_of_word(word_at(log.data@, 0))
    &&& read.data.lp_token.bytes@ == address_of_word(word_at(log.data@, 1))
}

impl DeployedToDex {
    /// Reads the new pool of a coin out of a log: the coin and the pool stand
    /// in the data.
    pub fn decode(log: &RawLog) -> (r: Result<Log<DeployedToDex>, PumpError>)
        ensures
            match r {
                Ok(read) => has_shape(*log, 1, 2) && deployed_to_dex_reads(*log, read),
                Err(e) => !has_shape(*log, 1, 2) && e == shape_error(*log, 1),
            },
    {
        match log.check_shape(1, 2) {
            Ok(_) => {},
            Err(e) => {
                return Err(e);
            },
        }
        let event = DeployedToDex {
            coin_id: read_u32(&log.data, 0),
            lp_token: read_address(&log.data, 1),
        };
        Ok(log.with_data(event))
    }
}

} // verus!
