use crate::address::{Address, B256};
use crate::error::listener::ListenerError;
use vstd::prelude::*;

verus! {

/// What can go wrong with an upload.
#[derive(Debug)]
pub enum FileUploadError {
    /// The multipart body could not be read; the transport's own words.
    Multipart(String),
    /// The form held no file.
    NoFileUploaded,
}

/// Every failure of the platform's services.
#[derive(Debug)]
pub enum PumpError {
    CoinNotFound(u32),
    WethNotFound,
    PairNotFound(Address),
    FailedToDecodeAbi,
    FileUpload(FileUploadError),
    /// No database connection could be had; the pool's own words.
    R2D2(String),
    /// A statement failed; the database layer's own words.
    Diesel(String),
    Listener(ListenerError),
    /// A call to the chain node failed; the transport's own words.
    TransportError(String),
    InvalidAddress,
    FailedToReadFile(String),
    NoBlockWithNumber(u64),
}

/// The HTTP status that `error` is answered with.
pub open spec fn status_of(error: PumpError) -> u16 {
    match error {
        PumpError::FailedToDecodeAbi | PumpError::R2D2(_) => 500,
        PumpError::CoinNotFound(_) | PumpError::PairNotFound(_) | PumpError::WethNotFound => 404,
        PumpError::FileUpload(_) => 400,
        PumpError::Diesel(_) => 404,
        PumpError::Listener(_) => 500,
        PumpError::TransportError(_) => 500,
        PumpError::InvalidAddress => 500,
        PumpError::FailedToReadFile(_) => 500,
        PumpError::NoBlockWithNumber(_) => 500,
    }
}

impl PumpError {
    /// The error for a candle that was asked for without any sample.
    pub open spec fn no_prices_spec(block: u64, pool: Address) -> PumpError {
        PumpError::Listener(ListenerError::NoPrices(block, pool))
    }

    /// The error for reserves that give no price.
    pub open spec fn zero_reserve_spec(pool: Address) -> PumpError {
        PumpError::Listener(ListenerError::ZeroReserve(pool))
    }

    /// The error for a swap that gives no price.
    pub open spec fn no_swap_price_spec(pool: Address, tx: Option<B256>) -> PumpError {
        PumpError::Listener(ListenerError::NoSwapPrice(pool, tx))
    }

    /// The error for a swap log without a transaction hash.
    pub open spec fn missing_tx_spec() -> PumpError {
        PumpError::Listener(ListenerError::MissingTransactionHash)
    }

    /// The error for a log whose first topic names no known event.
    pub open spec fn unknown_topic_spec(topic: Option<B256>) -> PumpError {
        PumpError::Listener(ListenerError::UnknownTopic(topic))
    }

    /// The error for a log without a block number.
    pub open spec fn no_block_number_spec() -> PumpError {
        PumpError::Listener(ListenerError::NoBlockNumber)
    }

    /// The HTTP status that this error is answered with: 404 where something
    /// was looked for and not found, 400 for a bad upload, 500 otherwise.
    pub fn status_code(&self) -> (code: u16)
        ensures
            code == status_of(*self),
    {
        match self {
            PumpError::FailedToDecodeAbi | PumpError::R2D2(_) => 500,
            PumpError::CoinNotFound(_) | PumpError::PairNotFound(_) | PumpError::WethNotFound => 404,
            PumpError::FileUpload(_) => 400,
            PumpError::Diesel(_) => 404,
            PumpError::Listener(_) => 500,
            PumpError::TransportError(_) => 500,
            PumpError::InvalidAddress => 500,
            PumpError::FailedToReadFile(_) => 500,
            PumpError::NoBlockWithNumber(_) => 500,
        }
    }

    pub fn no_upload() -> (e: PumpError)
        ensures
            e == PumpError::FileUpload(FileUploadError::NoFileUploaded),
    {
        PumpError::FileUpload(FileUploadError::NoFileUploaded)
    }

    pub fn unknown_topic(topic: Option<B256>) -> (e: PumpError)
        ensures
            e == PumpError::Listener(ListenerError::UnknownTopic(topic)),
    {
        PumpError::Listener(ListenerError::UnknownTopic(topic))
    }

    pub fn no_block_number() -> (e: PumpError)
        ensures
            e == PumpError::Listener(ListenerError::NoBlockNumber),
    {
        PumpError::Listener(ListenerError::NoBlockNumber)
    }

    pub fn no_prices(block: u64, pool: Address) -> (e: PumpError)
        ensures
            e == PumpError::Listener(ListenerError::NoPrices(block, pool)),
    {
        PumpError::Listener(ListenerError::NoPrices(block, pool))
    }

    pub fn no_swap_price(pool: Address, tx: Option<B256>) -> (e: PumpError)
        ensures
            e == PumpError::Listener(ListenerError::NoSwapPrice(pool, tx)),
    {
        PumpError::Listener(ListenerError::NoSwapPrice(pool, tx))
    }

    pub fn wrong_block(log_block: u64, current_block: u64) -> (e: PumpError)
        ensures
            e == PumpError::Listener(ListenerError::WrongBlock(log_block, current_block)),
    {
        PumpError::Listener(ListenerError::WrongBlock(log_block, current_block))
    }

    pub fn missing_tx() -> (e: PumpError)
        ensures
            e == PumpError::Listener(ListenerError::MissingTransactionHash),
    {
        PumpError::Listener(ListenerError::MissingTransactionHash)
    }

    pub fn zero_reserve(pool: Address) -> (e: PumpError)
        ensures
            e == PumpError::Listener(ListenerError::ZeroReserve(pool)),
    {
        PumpError::Listener(ListenerError::ZeroReserve(pool))
    }
}

} // verus!
