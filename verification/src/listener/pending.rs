use crate::address::Address;
use crate::contract::pair::{Swap, Sync};
use crate::contract::pump::{DeployedToDex, WeiInUpdated};
use crate::listener::log::Log;
use std::collections::HashMap;
use vstd::prelude::*;

verus! {

/// A log that waits for the header of its block.
#[derive(Clone, Copy, Debug)]
pub enum PendingLogEntry {
    WeiInUpdated(Log<WeiInUpdated>),
    DeployedToDex(Log<DeployedToDex>),
    Swap(Log<Swap>),
    Sync(Log<Sync>),
}

impl PendingLogEntry {
    /// The block number that the log carries.
    pub open spec fn block_number(self) -> Option<u64> {
        match self {
            PendingLogEntry::WeiInUpdated(log) => log.block_number,
            PendingLogEntry::DeployedToDex(log) => log.block_number,
            PendingLogEntry::Swap(log) => log.block_number,
            PendingLogEntry::Sync(log) => log.block_number,
        }
    }

    /// The pool that the log is about: the new pool of a coin, or the pair
    /// that reported its reserves or a swap. A payment is about no pool.
    pub open spec fn pool(self) -> Option<Address> {
        match self {
            PendingLogEntry::WeiInUpdated(_) => None,
            PendingLogEntry::DeployedToDex(log) => Some(log.data.lp_token),
            PendingLogEntry::Swap(log) => Some(log.address),
            PendingLogEntry::Sync(log) => Some(log.address),
        }
    }

    /// The pool that the log is about, if it is about one.
    pub fn pool_named(&self) -> (r: Option<Address>)
        ensures
            r == self.pool(),
    {
        match self {
            PendingLogEntry::WeiInUpdated(_) => None,
            PendingLogEntry::DeployedToDex(log) => Some(log.data.lp_token),
            PendingLogEntry::Swap(log) => Some(log.address),
            PendingLogEntry::Sync(log) => Some(log.address),
        }
    }
}

/// Logs that all belong to one block are taken up again as logs of that
/// block.
pub proof fn lemma_replay_order_all_for(view: PendingView, number: u64)
    requires
        view.all_for(number),
    ensures
        forall|i: int|
            0 <= i < view.replay_order().len() ==> (#[trigger] view.replay_order()[i]).block_number()
                == Some(number),
{
    let order = view.replay_order();
    let a = view.wei_in_updates.len() as int;
    let b = a + view.deployed_to_dexs.len();
    let c = b + view.syncs.len();
    assert forall|i: int| 0 <= i < order.len() implies (#[trigger] order[i]).block_number() == Some(
        number,
    ) by {
        if i < a {
            assert(order[i] == PendingLogEntry::WeiInUpdated(view.wei_in_updates[i]));
        } else if i < b {
            assert(order[i] == PendingLogEntry::DeployedToDex(view.deployed_to_dexs[i - a]));
        } else if i < c {
            assert(order[i] == PendingLogEntry::Sync(view.syncs[i - b]));
        } else {
            assert(order[i] == PendingLogEntry::Swap(view.swaps[i - c]));
        }
    }
}

/// The logs that wait for one block, by kind, each kind in the order of
/// arrival.
#[derive(Debug)]
pub struct PendingLogs {
    pub wei_in_updates: Vec<Log<WeiInUpdated>>,
    pub deployed_to_dexs: Vec<Log<DeployedToDex>>,
    pub swaps: Vec<Log<Swap>>,
    pub syncs: Vec<Log<Sync>>,
}

/// What waits for one block, as sequences.
pub struct PendingView {
    pub wei_in_updates: Seq<Log<WeiInUpdated>>,
    pub deployed_to_dexs: Seq<Log<DeployedToDex>>,
    pub swaps: Seq<Log<Swap>>,
    pub syncs: Seq<Log<Sync>>,
}

impl PendingView {
    /// Nothing waits.
    pub open spec fn empty() -> PendingView {
        PendingView {
            wei_in_updates: Seq::empty(),
            deployed_to_dexs: Seq::empty(),
            swaps: Seq::empty(),
            syncs: Seq::empty(),
        }
    }

    /// With one more log at the end of its kind.
    pub open spec fn with(self, entry: PendingLogEntry) -> PendingView {
        match entry {
            PendingLogEntry::WeiInUpdated(log) => PendingView {
                wei_in_updates: self.wei_in_updates.push(log),
                ..self
            },
            PendingLogEntry::DeployedToDex(log) => PendingView {
                deployed_to_dexs: self.deployed_to_dexs.push(log),
                ..self
            },
            PendingLogEntry::Swap(log) => PendingView { swaps: self.swaps.push(log), ..self },
            PendingLogEntry::Sync(log) => PendingView { syncs: self.syncs.push(log), ..self },
        }
    }

    /// Whether every waiting log belongs to block `number`.
    pub open spec fn all_for(self, number: u64) -> bool {
        &&& forall|i: int|
            0 <= i < self.wei_in_updates.len() ==> (#[trigger] self.wei_in_updates[i]).block_number
                == Some(number)
        &&& forall|i: int|
            0 <= i < self.deployed_to_dexs.len() ==> (
            #[trigger] self.deployed_to_dexs[i]).block_number == Some(number)
        &&& forall|i: int|
            0 <= i < self.swaps.len() ==> (#[trigger] self.swaps[i]).block_number == Some(number)
        &&& forall|i: int|
            0 <= i < self.syncs.len() ==> (#[trigger] self.syncs[i]).block_number == Some(number)
    }

    /// The order in which waiting logs are taken up again: payments first,
    /// then new pools, then reserve reports, then swaps; within a kind, the
    /// order of arrival.
    pub open spec fn replay_order(self) -> Seq<PendingLogEntry> {
        self.wei_in_updates.map_values(|log: Log<WeiInUpdated>| PendingLogEntry::WeiInUpdated(log))
            + self.deployed_to_dexs.map_values(
            |log: Log<DeployedToDex>| PendingLogEntry::DeployedToDex(log),
        ) + self.syncs.map_values(|log: Log<Sync>| PendingLogEntry::Sync(log))
            + self.swaps.map_values(|log: Log<Swap>| PendingLogEntry::Swap(log))
    }
}

impl View for PendingLogs {
    type V = PendingView;

    open spec fn view(&self) -> PendingView {
        PendingView {
            wei_in_updates: self.wei_in_updates@,
            deployed_to_dexs: self.deployed_to_dexs@,
            swaps: self.swaps@,
            syncs: self.syncs@,
        }
    }
}

impl Default for PendingLogs {
    fn default() -> (r: PendingLogs)
        ensures
            r@ == PendingView::empty(),
    {
        PendingLogs {
            wei_in_updates: Vec::new(),
            deployed_to_dexs: Vec::new(),
            swaps: Vec::new(),
            syncs: Vec::new(),
        }
    }
}

impl PendingLogs {
    /// The waiting logs in the order in which they are taken up again.
    pub fn replay_order(&self) -> (r: Vec<PendingLogEntry>)
        ensures
            r@ == self@.replay_order(),
    {
        let mut entries: Vec<PendingLogEntry> = Vec::new();
        let ghost wei = self.wei_in_updates@.map_values(
            |log: Log<WeiInUpdated>| PendingLogEntry::WeiInUpdated(log),
        );
        let ghost deployed = self.deployed_to_dexs@.map_values(
            |log: Log<DeployedToDex>| PendingLogEntry::DeployedToDex(log),
        );
        let ghost syncs = self.syncs@.map_values(|log: Log<Sync>| PendingLogEntry::Sync(log));
        let ghost swaps = self.swaps@.map_values(|log: Log<Swap>| PendingLogEntry::Swap(log));
        let mut i: usize = 0;
        while i < self.wei_in_updates.len()
            invariant
                i <= self.wei_in_updates@.len(),
                wei == self.wei_in_updates@.map_values(
                    |log: Log<WeiInUpdated>| PendingLogEntry::WeiInUpdated(log),
                ),
                entries@ == wei.take(i as int),
            decreases self.wei_in_updates@.len() - i,
        {
            entries.push(PendingLogEntry::WeiInUpdated(self.wei_in_updates[i]));
            assert(wei.take(i as int).push(wei[i as int]) =~= wei.take(i + 1));
            i += 1;
        }
        assert(wei.take(wei.len() as int) =~= wei);
        i = 0;
        while i < self.deployed_to_dexs.len()
            invariant
                i <= self.deployed_to_dexs@.len(),
                deployed == self.deployed_to_dexs@.map_values(
                    |log: Log<DeployedToDex>| PendingLogEntry::DeployedToDex(log),
                ),
                entries@ == wei + deployed.take(i as int),
            decreases self.deployed_to_dexs@.len() - i,
        {
            entries.push(PendingLogEntry::DeployedToDex(self.deployed_to_dexs[i]));
            assert((wei + deployed.take(i as int)).push(deployed[i as int]) =~= wei
                + deployed.take(i + 1));
            i += 1;
        }
        assert(deployed.take(deployed.len() as int) =~= deployed);
        i = 0;
        while i < self.syncs.len()
            invariant
                i <= self.syncs@.len(),
                syncs == self.syncs@.map_values(|log: Log<Sync>| PendingLogEntry::Sync(log)),
                entries@ == wei + deployed + syncs.take(i as int),
            decreases self.syncs@.len() - i,
        {
            entries.push(PendingLogEntry::Sync(self.syncs[i]));
            assert((wei + deployed + syncs.take(i as int)).push(syncs[i as int]) =~= wei + deployed
                + syncs.take(i + 1));
            i += 1;
        }
        assert(syncs.take(syncs.len() as int) =~= syncs);
        i = 0;
        while i < self.swaps.len()
            invariant
                i <= self.swaps@.len(),
                swaps == self.swaps@.map_values(|log: Log<Swap>| PendingLogEntry::Swap(log)),
                entries@ == wei + deployed + syncs + swaps.take(i as int),
            decreases self.swaps@.len() - i,
        {
            entries.push(PendingLogEntry::Swap(self.swaps[i]));
            assert((wei + deployed + syncs + swaps.take(i as int)).push(swaps[i as int]) =~= wei
                + deployed + syncs + swaps.take(i + 1));
            i += 1;
        }
        assert(swaps.take(swaps.len() as int) =~= swaps);
        entries
    }
}

/// The logs that arrived before the header of their block, by block number.
pub struct PendingLogBuffer {
    pub by_block: HashMap<u64, PendingLogs>,
}

impl PendingLogBuffer {
    /// What waits for block `number`; nothing where no log was put aside.
    pub open spec fn waiting(&self, number: u64) -> PendingView {
        if self.by_block@.contains_key(number) {
            self.by_block@[number]@
        } else {
            PendingView::empty()
        }
    }

    /// A buffer in which nothing waits.
    pub fn new() -> (r: PendingLogBuffer)
        ensures
            forall|number: u64| r.waiting(number) == PendingView::empty(),
    {
        PendingLogBuffer { by_block: HashMap::new() }
    }

    /// Puts a log aside until the header of block `number` arrives. It goes
    /// behind the logs of its kind that wait for that block already; what
    /// waits for other blocks stays as it is.
    pub fn push(&mut self, number: u64, entry: PendingLogEntry)
        ensures
            final(self).waiting(number) == old(self).waiting(number).with(entry),
            forall|other: u64|
                other != number ==> final(self).waiting(other) == old(self).waiting(other),
    {
        let mut logs = match self.by_block.remove(&number) {
            Some(logs) => logs,
            None => PendingLogs::default(),
        };
        match entry {
            PendingLogEntry::WeiInUpdated(log) => logs.wei_in_updates.push(log),
            PendingLogEntry::DeployedToDex(log) => logs.deployed_to_dexs.push(log),
            PendingLogEntry::Swap(log) => logs.swaps.push(log),
            PendingLogEntry::Sync(log) => logs.syncs.push(log),
        }
        self.by_block.insert(number, logs);
    }

    /// What waits for block `number`, if anything was put aside for it.
    pub fn peek(&self, number: u64) -> (r: Option<&PendingLogs>)
        ensures
            match r {
                Some(logs) => logs@ == self.waiting(number),
                None => self.waiting(number) == PendingView::empty(),
            },
    {
        self.by_block.get(&number)
    }

    /// Takes out everything that waits for block `number`, in the order in
    /// which it is to be taken up again. Afterwards nothing waits for that
    /// block; what waits for other blocks stays as it is.
    pub fn drain(&mut self, number: u64) -> (r: Vec<PendingLogEntry>)
        ensures
            r@ == old(self).waiting(number).replay_order(),
            final(self).waiting(number) == PendingView::empty(),
            forall|other: u64|
                other != number ==> final(self).waiting(other) == old(self).waiting(other),
    {
        match self.by_block.remove(&number) {
            Some(logs) => logs.replay_order(),
            None => {
                assert(PendingView::empty().replay_order() =~= Seq::<PendingLogEntry>::empty());
                Vec::new()
            },
        }
    }
}

} // verus!
