use crate::address::{Address, B256};
use crate::error::listener::{DecodeError, ListenerError};
use crate::error::pump::PumpError;
use vstd::prelude::*;

verus! {

/// One log of the chain with its payload read as `T`: the contract that wrote
/// it, and what the node said of where it stands. A node may leave out the
/// block number or the transaction hash.
#[derive(Clone, Copy, Debug)]
pub struct Log<T> {
    pub address: Address,
    pub data: T,
    pub block_number: Option<u64>,
    pub transaction_hash: Option<B256>,
}

/// One log of the chain as the node hands it out: topics and data are still
/// to be read.
#[derive(Debug)]
pub struct RawLog {
    pub address: Address,
    pub topics: Vec<B256>,
    pub data: Vec<u8>,
    pub block_number: Option<u64>,
    pub transaction_hash: Option<B256>,
}

/// Whether a log has the shape of an event with `topics` topics, the one that
/// names it included, and `words` words of data.
pub open spec fn has_shape(log: RawLog, topics: int, words: int) -> bool {
    log.topics@.len() == topics && log.data@.len() >= 32 * words
}

/// The error for a log that has not the shape of an event with `topics`
/// topics and `words` words of data: a wrong number of topics comes before
/// too little data.
pub open spec fn shape_error(log: RawLog, topics: int) -> PumpError {
    if log.topics@.len() != topics {
        PumpError::Listener(ListenerError::LogDecodeError(DecodeError::TopicCount))
    } else {
        PumpError::Listener(ListenerError::LogDecodeError(DecodeError::DataTooShort))
    }
}

impl RawLog {
    /// The first topic, which names the event; nothing for a log without
    /// topics.
    pub fn topic0(&self) -> (r: Option<B256>)
        ensures
            r == if self.topics@.len() > 0 {
                Some(self.topics@[0])
            } else {
                None
            },
    {
        if self.topics.len() > 0 {
            Some(self.topics[0])
        } else {
            None
        }
    }

    /// Checks that the log has `topics` topics and at least `words` words of
    /// data.
    pub fn check_shape(&self, topics: usize, words: usize) -> (r: Result<(), PumpError>)
        requires
            words <= 8,
        ensures
            match r {
                Ok(_) => has_shape(*self, topics as int, words as int),
                Err(e) => !has_shape(*self, topics as int, words as int) && e == shape_error(
                    *self,
                    topics as int,
                ),
            },
    {
        if self.topics.len() != topics {
            return Err(PumpError::Listener(ListenerError::LogDecodeError(DecodeError::TopicCount)));
        }
        if !crate::abi::has_words(&self.data, words) {
            return Err(
                PumpError::Listener(ListenerError::LogDecodeError(DecodeError::DataTooShort)),
            );
        }
        Ok(())
    }

    /// The payload `data` in the envelope of this log.
    pub fn with_data<T>(&self, data: T) -> (r: Log<T>)
        ensures
            r.address == self.address,
            r.data == data,
            r.block_number == self.block_number,
            r.transaction_hash == self.transaction_hash,
    {
        Log {
            address: self.address,
            data,
            block_number: self.block_number,
            transaction_hash: self.transaction_hash,
        }
    }
}

} // verus!
