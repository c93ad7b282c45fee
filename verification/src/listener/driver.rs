use crate::address::Address;
use crate::address_map::AddressMap;
use crate::client::block::Block;
use crate::contract::topics::{lemma_topics_differ, EventKind};
use crate::db::models::NewPoolPrice;
use crate::error::pump::PumpError;
use crate::listener::handler::{BlockOutcome, Dispatch, FetchedTokens, Handled, LogHandler};
use crate::listener::log::RawLog;
use vstd::prelude::*;

verus! {

/// What the two subscriptions hand to the listener: the header of a new
/// block, a log of one of the watched contracts, or the news that one of the
/// subscriptions has ended.
#[derive(Debug)]
pub enum StreamEvent {
    Header(Block),
    Log(RawLog),
    HeadersEnded,
    LogsEnded,
}

/// What came of one event, for the driver to carry out: the result of each
/// log that was taken up, in order; the candles to be stored; the addresses
/// to watch from now on, where the subscription to the pairs has to be made
/// anew; and whether the listener has to stop.
#[derive(Debug)]
pub struct Outcome {
    pub results: Vec<Result<Handled, PumpError>>,
    pub candles: Vec<NewPoolPrice>,
    pub watch: Option<Vec<Address>>,
    pub stop: bool,
}

/// Whether one of the results asks for the subscription to be made anew.
pub open spec fn asks_resubscription(results: Seq<Result<Handled, PumpError>>) -> bool {
    exists|i: int|
        0 <= i < results.len() && (#[trigger] results[i]).is_ok() && results[i].unwrap().dispatch
            == Dispatch::RequiresResubscription
}

/// Whether one of the results asks for the subscription to be made anew.
pub fn any_asks_resubscription(results: &Vec<Result<Handled, PumpError>>) -> (r: bool)
    ensures
        r == asks_resubscription(results@),
{
    let mut i: usize = 0;
    while i < results.len()
        invariant
            i <= results@.len(),
            forall|j: int|
                0 <= j < i ==> !((#[trigger] results@[j]).is_ok() && results@[j].unwrap().dispatch
                    == Dispatch::RequiresResubscription),
        decreases results@.len() - i,
    {
        match &results[i] {
            Ok(handled) => match handled.dispatch {
                Dispatch::RequiresResubscription => {
                    return true;
                },
                Dispatch::Continue => {},
            },
            Err(_) => {},
        }
        i += 1;
    }
    false
}

impl LogHandler {
    /// A log asks for one pool at most.
    pub proof fn lemma_asks_for_one(&self, log: RawLog, a: Address, b: Address)
        requires
            self.asks_for(log, a),
            self.asks_for(log, b),
        ensures
            a == b,
    {
        lemma_topics_differ(EventKind::Swap, EventKind::Sync);
        lemma_topics_differ(EventKind::Swap, EventKind::DeployedToDex);
        lemma_topics_differ(EventKind::Sync, EventKind::DeployedToDex);
        assert(a.bytes@ =~= b.bytes@);
        assert(a.bytes =~= b.bytes);
    }

    /// What the chain answered for the pool that `log` asks for; nothing
    /// where it asks for none.
    pub open spec fn answer_to(
        &self,
        log: RawLog,
        answers: AddressMap<(Address, Address)>,
    ) -> FetchedTokens {
        if exists|lp_token: Address| self.asks_for(log, lp_token) {
            Self::answer_for(answers, choose|lp_token: Address| self.asks_for(log, lp_token))
        } else {
            None
        }
    }

    /// The pools that `event` asks to be looked up on the chain before it is
    /// taken up: the unknown pool of a log whose block is known, or the
    /// unknown pools of the logs that wait for a header.
    pub open spec fn lookups_wanted(&self, event: StreamEvent) -> Seq<Address> {
        match event {
            StreamEvent::Header(block) => self.lookups_of(
                self.pending_logs.waiting(block.number).replay_order(),
            ),
            StreamEvent::Log(log) => if exists|lp_token: Address| self.asks_for(log, lp_token) {
                seq![choose|lp_token: Address| self.asks_for(log, lp_token)]
            } else {
                Seq::empty()
            },
            _ => Seq::empty(),
        }
    }

    /// The pools whose tokens the driver has to ask the chain for before it
    /// hands `event` to [`LogHandler::step`].
    pub fn lookups(&self, event: &StreamEvent) -> (r: Vec<Address>)
        requires
            self.wf(),
        ensures
            r@ == self.lookups_wanted(*event),
    {
        match event {
            StreamEvent::Header(block) => self.lookups_for(block.number),
            StreamEvent::Log(log) => {
                let mut wanted: Vec<Address> = Vec::new();
                match self.lookup_for(log) {
                    Some(lp_token) => {
                        proof {
                            let chosen = choose|lp_token: Address| self.asks_for(*log, lp_token);
                            self.lemma_asks_for_one(*log, lp_token, chosen);
                        }
                        wanted.push(lp_token);
                        assert(wanted@ =~= seq![lp_token]);
                    },
                    None => {},
                }
                wanted
            },
            _ => Vec::new(),
        }
    }

    /// What one event of the subscriptions comes to, with `old` the state
    /// before, `self` the state after and `r` the outcome. A header is taken
    /// up as [`LogHandler::new_block`] says, a log as
    /// [`LogHandler::handle_log`] says, with the answer of the chain for the
    /// pool that it asks for. The addresses to watch are given anew exactly
    /// where a result asks for it, and they are the tokens of the pools that
    /// are known afterwards. The end of a subscription stops the listener
    /// and changes nothing; nothing else stops it, and no error does.
    pub open spec fn stepped(
        &self,
        old: &LogHandler,
        event: StreamEvent,
        answers: AddressMap<(Address, Address)>,
        r: Outcome,
    ) -> bool {
        &&& match event {
            StreamEvent::Header(block) => {
                &&& !r.stop
                &&& self.block_handled(
                    old,
                    block,
                    answers,
                    BlockOutcome { replayed: r.results, candles: r.candles },
                )
            },
            StreamEvent::Log(log) => {
                &&& !r.stop
                &&& r.candles@.len() == 0
                &&& r.results@.len() == 1
                &&& self.log_handled(old, log, old.answer_to(log, answers), r.results@[0])
            },
            _ => {
                &&& r.stop
                &&& r.candles@.len() == 0
                &&& r.results@.len() == 0
                &&& self.unchanged(old)
            },
        }
        &&& r.watch.is_some() == asks_resubscription(r.results@)
        &&& r.watch.is_some() ==> {
            &&& r.watch.unwrap()@.len() == self.pools.pools.entries@.len()
            &&& forall|i: int|
                0 <= i < r.watch.unwrap()@.len() ==> r.watch.unwrap()@[i]
                    == (#[trigger] self.pools.pools.entries@[i]).0
        }
    }

    /// Takes up one event of the subscriptions. `answers` holds what the
    /// chain answered for the pools that [`LogHandler::lookups`] asked for.
    pub fn step(&mut self, event: StreamEvent, answers: &AddressMap<(Address, Address)>) -> (r:
        Outcome)
        requires
            old(self).wf(),
            answers.wf(),
            event matches StreamEvent::Header(block) ==> old(self).confirmations >= 1
                || block.number < u64::MAX,
        ensures
            final(self).wf(),
            final(self).stepped(old(self), event, *answers, r),
    {
        match event {
            StreamEvent::Header(block) => {
                let outcome = self.new_block(block, answers);
                let watch = if any_asks_resubscription(&outcome.replayed) {
                    Some(self.lp_tokens())
                } else {
                    None
                };
                Outcome { results: outcome.replayed, candles: outcome.candles, watch, stop: false }
            },
            StreamEvent::Log(log) => {
                let fetched = match self.lookup_for(&log) {
                    Some(lp_token) => {
                        proof {
                            let chosen = choose|lp_token: Address| self.asks_for(log, lp_token);
                            self.lemma_asks_for_one(log, lp_token, chosen);
                        }
                        match answers.get(&lp_token) {
                            Some(tokens) => Some(*tokens),
                            None => None,
                        }
                    },
                    None => None,
                };
                let result = self.handle_log(&log, fetched);
                let mut results: Vec<Result<Handled, PumpError>> = Vec::new();
                results.push(result);
                let watch = if any_asks_resubscription(&results) {
                    Some(self.lp_tokens())
                } else {
                    None
                };
                Outcome { results, candles: Vec::new(), watch, stop: false }
            },
            _ => Outcome { results: Vec::new(), candles: Vec::new(), watch: None, stop: true },
        }
    }
}

} // verus!
