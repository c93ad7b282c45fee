use crate::address::{Address, B256};
use vstd::prelude::*;

verus! {

/// Why the payload of a log could not be read as the event that its first
/// topic names.
#[derive(Clone, Copy, Debug, PartialEq, Eq, Structural)]
pub enum DecodeError {
    /// The log carries another number of topics than the event has.
    TopicCount,
    /// The data is shorter than the event's fields.
    DataTooShort,
}

/// What can go wrong with one event of the feed. None of these stops the
/// listener: the event is dropped and the next one is taken.
#[derive(Debug)]
pub enum ListenerError {
    /// The payload is malformed.
    LogDecodeError(DecodeError),
    /// The first topic names no event that the listener knows; the topic is
    /// kept, or nothing where the log had no topic at all.
    UnknownTopic(Option<B256>),
    /// The timestamp of a block is missing.
    NoBlockTimestamp,
    /// The log carries no block number.
    NoBlockNumber,
    /// Block and pool of a candle that was asked for without any sample.
    NoPrices(u64, Address),
    /// Pool and transaction of a swap whose flows give no price.
    NoSwapPrice(Address, Option<B256>),
    /// The block of an event, and the block that the listener is on.
    WrongBlock(u64, u64),
    /// A swap log carries no transaction hash.
    MissingTransactionHash,
    /// The pool of a reserve report from which no price can be had: a reserve
    /// that has to be divided by is zero.
    ZeroReserve(Address),
}

} // verus!
