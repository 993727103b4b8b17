//! The shared pipeline state and the operations that mutate it.

use std::collections::{HashMap, VecDeque};
use vstd::prelude::*;
use crate::address::{lemma_key_injective, TargetAddr};
use crate::config::Config;
use crate::model::{
    cache_of, classify, decoded, lemma_decoded_or_failed, lemma_reconcile_counts,
    lemma_reconcile_frame, BulkUpdate, Classification, PipelineView, ServerState,
};

verus! {

broadcast use vstd::std_specs::hash::group_hash_axioms;

/// How many entries one batch drains at most.
pub const BATCH_SIZE: usize = 100;

/// How long the dispatcher waits before it looks at an empty queue again,
/// in milliseconds.
pub const IDLE_WAIT_MILLIS: u64 = 100;

/// The state that the emitter and the dispatchers share. It is mutated
/// only through exclusive access to the whole of it.
pub struct SharedData {
    /// The servers to process, each with its raw response, oldest first.
    pub queue: VecDeque<(TargetAddr, Vec<u8>)>,
    /// What the previous responses said of each server, filed under the
    /// server's key.
    pub cached_servers: HashMap<u64, ServerState>,
    pub total_new: usize,
    pub revived: usize,
    pub results: usize,
    /// The number of tasks that are processing a batch.
    pub processing_count: usize,
    /// How far apart, in seconds, two responses may be for a server that
    /// gained its first players between them to count as revived.
    pub revival_window_secs: u64,
}

impl View for SharedData {
    type V = PipelineView;

    open spec fn view(&self) -> PipelineView {
        PipelineView {
            queue: self.queue@,
            cache: Map::new(
                |target: TargetAddr| self.cached_servers@.contains_key(target.spec_key()),
                |target: TargetAddr| self.cached_servers@[target.spec_key()],
            ),
            total_new: self.total_new as nat,
            revived: self.revived as nat,
            results: self.results as nat,
            processing_count: self.processing_count as nat,
            revival_window_secs: self.revival_window_secs,
        }
    }
}

impl SharedData {
    /// An empty pipeline with all counters at zero.
    pub fn new(revival_window_secs: u64) -> (shared: SharedData)
        ensures
            shared@.queue == Seq::<(TargetAddr, Vec<u8>)>::empty(),
            shared@.cache == Map::<TargetAddr, ServerState>::empty(),
            shared@.total_new == 0,
            shared@.revived == 0,
            shared@.results == 0,
            shared@.processing_count == 0,
            shared@.revival_window_secs == revival_window_secs,
            shared@.wf(),
    {
        let shared = SharedData {
            queue: VecDeque::new(),
            cached_servers: HashMap::new(),
            total_new: 0,
            revived: 0,
            results: 0,
            processing_count: 0,
            revival_window_secs,
        };
        assert(shared@.cache =~= Map::<TargetAddr, ServerState>::empty());
        shared
    }

    /// Appends a raw response to the queue.
    pub fn enqueue(&mut self, target: TargetAddr, data: Vec<u8>)
        ensures
            final(self)@ == old(self)@.enqueued((target, data)),
    {
        self.queue.push_back((target, data));
    }

    /// Removes the oldest entries of the queue, up to `max_size` of them,
    /// and returns them oldest first.
    pub fn drain_batch(&mut self, max_size: usize) -> (batch: Vec<(TargetAddr, Vec<u8>)>)
        ensures
            batch@ == old(self)@.first_batch(max_size as nat),
            final(self)@ == old(self)@.drained(max_size as nat),
    {
        let mut batch: Vec<(TargetAddr, Vec<u8>)> = Vec::new();
        let ghost before = self.queue@;
        while batch.len() < max_size && self.queue.len() > 0
            invariant
                batch@.len() <= max_size,
                batch@.len() <= before.len(),
                batch@ == before.take(batch@.len() as int),
                self.queue@ == before.skip(batch@.len() as int),
                self.cached_servers == old(self).cached_servers,
                self.total_new == old(self).total_new,
                self.revived == old(self).revived,
                self.results == old(self).results,
                self.processing_count == old(self).processing_count,
                self.revival_window_secs == old(self).revival_window_secs,
            decreases self.queue@.len(),
        {
            let ghost taken = batch@.len() as int;
            let entry = self.queue.pop_front();
            match entry {
                Some(entry) => {
                    batch.push(entry);
                    assert(batch@ =~= before.take(taken + 1));
                    assert(self.queue@ =~= before.skip(taken + 1));
                },
                None => {},
            }
        }
        batch
    }

    /// Replaces the cache as a whole by what a previous scan knew: each
    /// server with its state, a later entry for a server in place of an
    /// earlier one.
    pub fn replace_cache(&mut self, servers: &Vec<(TargetAddr, ServerState)>)
        ensures
            final(self)@ == (PipelineView { cache: cache_of(servers@), ..old(self)@ }),
    {
        let mut cache: HashMap<u64, ServerState> = HashMap::new();
        let mut i: usize = 0;
        let ghost filed = Map::<TargetAddr, ServerState>::empty();
        while i < servers.len()
            invariant
                i <= servers@.len(),
                filed == cache_of(servers@.take(i as int)),
                forall|target: TargetAddr|
                    filed.contains_key(target) <==> cache@.contains_key(
                        #[trigger] target.spec_key(),
                    ),
                forall|target: TargetAddr|
                    filed.contains_key(target) ==> filed[target] == cache@[
                        #[trigger] target.spec_key()],
            decreases servers@.len() - i,
        {
            let (target, state) = servers[i];
            cache.insert(target.key(), state);
            proof {
                let next = servers@.take(i as int + 1);
                assert(next.drop_last() =~= servers@.take(i as int));
                assert(next.last() == servers@[i as int]);
                filed = filed.insert(target, state);
                assert forall|other: TargetAddr|
                    other.spec_key() == target.spec_key() implies other == target by {
                    lemma_key_injective(other, target);
                }
            }
            i = i + 1;
        }
        self.cached_servers = cache;
        proof {
            assert(servers@.take(servers@.len() as int) =~= servers@);
            assert(self@.cache =~= cache_of(servers@));
        }
    }

    /// What the cache holds for a target.
    pub fn cached(&self, target: TargetAddr) -> (state: Option<ServerState>)
        ensures
            state == self@.cached(target),
    {
        let key = target.key();
        match self.cached_servers.get(&key) {
            Some(state) => Some(*state),
            None => None,
        }
    }

    /// Classifies a decoded response against what the cache holds for its
    /// target, counts it, and puts it in the cache in place of what was
    /// there.
    pub fn diff_and_cache(&mut self, target: TargetAddr, decoded: ServerState) -> (class:
        Classification)
        requires
            old(self)@.wf(),
            old(self)@.results < usize::MAX,
        ensures
            class == old(self)@.classification(target, decoded),
            final(self)@ == old(self)@.record(target, decoded),
            final(self)@.wf(),
    {
        let prior = self.cached(target);
        let class = classify_response(prior, decoded, self.revival_window_secs);
        match class {
            Classification::New => {
                self.total_new = self.total_new + 1;
            },
            Classification::Revived => {
                self.revived = self.revived + 1;
            },
            Classification::Unchanged => {},
        }
        self.results = self.results + 1;
        self.cached_servers.insert(target.key(), decoded);
        proof {
            assert forall|other: TargetAddr|
                other.spec_key() == target.spec_key() implies other == target by {
                lemma_key_injective(other, target);
            }
            assert(self@.cache =~= old(self)@.cache.insert(target, decoded));
        }
        class
    }

    /// Classifies a batch of updates, first update first, and returns the
    /// class of each.
    pub fn reconcile(&mut self, updates: &Vec<BulkUpdate>) -> (classes: Vec<Classification>)
        requires
            old(self)@.wf(),
            old(self)@.results + updates@.len() <= usize::MAX,
        ensures
            final(self)@ == old(self)@.reconcile(updates@),
            classes@ == old(self)@.classes(updates@),
            final(self)@.results == old(self)@.results + updates@.len(),
            final(self)@.queue == old(self)@.queue,
            final(self)@.wf(),
    {
        let mut classes: Vec<Classification> = Vec::new();
        let mut i: usize = 0;
        assert(updates@.take(0) =~= Seq::<BulkUpdate>::empty());
        while i < updates.len()
            invariant
                i <= updates@.len(),
                old(self)@.results + updates@.len() <= usize::MAX,
                self@ == old(self)@.reconcile(updates@.take(i as int)),
                self@.results == old(self)@.results + i,
                self@.wf(),
                classes@ == old(self)@.classes(updates@).take(i as int),
            decreases updates@.len() - i,
        {
            let class = self.diff_and_cache(updates[i].target, updates[i].state);
            classes.push(class);
            proof {
                let next = updates@.take(i as int + 1);
                assert(next.drop_last() =~= updates@.take(i as int));
                assert(next.last() == updates@[i as int]);
                assert(classes@ =~= old(self)@.classes(updates@).take(i as int + 1));
            }
            i = i + 1;
        }
        proof {
            assert(updates@.take(updates@.len() as int) =~= updates@);
            assert(classes@ =~= old(self)@.classes(updates@));
            lemma_reconcile_counts(old(self)@, updates@);
        }
        classes
    }

    /// Takes note that the commit of a batch has ended, well or not: one
    /// task fewer is processing, and nothing else changes. Returns the
    /// number of tasks that still are.
    pub fn commit_finished(&mut self, committed: bool) -> (processing: usize)
        requires
            old(self)@.processing_count > 0,
        ensures
            final(self)@ == (PipelineView {
                processing_count: (old(self)@.processing_count - 1) as nat,
                ..old(self)@
            }),
            processing == final(self)@.processing_count,
    {
        self.processing_count = self.processing_count - 1;
        self.processing_count
    }
}

/// A decoder of raw responses, one per scanning mode.
pub trait ProcessableProtocol {
    /// Decodes the raw response of one server into the update that it
    /// calls for, or into nothing: where the bytes cannot be decoded, or
    /// where the server is to be ignored. The state that it is shown has
    /// counters that agree.
    fn process(shared: &SharedData, config: &Config, target: TargetAddr, data: &[u8]) -> Option<
        BulkUpdate,
    >
        requires
            shared@.wf(),
    ;
}

/// Keeps the updates among the outcomes of decoding a batch, in the order
/// of the batch.
pub fn collect_updates(outcomes: Vec<Option<BulkUpdate>>) -> (updates: Vec<BulkUpdate>)
    ensures
        updates@ == decoded(outcomes@),
{
    let mut updates: Vec<BulkUpdate> = Vec::new();
    assert(outcomes@.take(0) =~= Seq::<Option<BulkUpdate>>::empty());
    for outcome in iter: outcomes.into_iter()
        invariant
            iter.seq() == outcomes@,
            updates@ == decoded(outcomes@.take(iter.index())),
    {
        proof {
            let next = outcomes@.take(iter.index() + 1);
            assert(next.drop_last() =~= outcomes@.take(iter.index()));
            assert(next.last() == outcome);
        }
        match outcome {
            Some(update) => {
                updates.push(update);
            },
            None => {},
        }
    }
    assert(outcomes@.take(outcomes@.len() as int) =~= outcomes@);
    updates
}

/// What the dispatcher does next.
#[derive(Debug)]
pub enum DispatchAction {
    /// The queue was empty: wait, then look again.
    Sleep { millis: u64 },
    /// A batch was drained and classified: commit its updates as one
    /// write, then report back with `commit_finished`.
    Commit { drained: usize, updates: Vec<BulkUpdate> },
}

/// Drains one batch from the queue, decodes each of its entries with `P`
/// and classifies what was decoded, in the order of the queue. With an
/// empty queue nothing changes.
pub fn process_queue<P: ProcessableProtocol>(shared: &mut SharedData, config: &Config) -> (action:
    DispatchAction)
    requires
        old(shared)@.wf(),
        old(shared)@.results + BATCH_SIZE <= usize::MAX,
        old(shared)@.processing_count < usize::MAX,
    ensures
        final(shared)@.wf(),
        match action {
            DispatchAction::Sleep { millis } => {
                &&& old(shared)@.queue.len() == 0
                &&& millis == IDLE_WAIT_MILLIS
                &&& final(shared)@ == old(shared)@
            },
            DispatchAction::Commit { drained, updates } => {
                &&& old(shared)@.queue.len() > 0
                &&& drained == old(shared)@.batch_len(BATCH_SIZE as nat)
                &&& updates@.len() <= drained
                &&& final(shared)@ == (PipelineView {
                    processing_count: old(shared)@.processing_count + 1,
                    ..old(shared)@.drained(BATCH_SIZE as nat).reconcile(updates@)
                })
                &&& final(shared)@.queue == old(shared)@.queue.skip(drained as int)
                &&& final(shared)@.results == old(shared)@.results + updates@.len()
            },
        },
{
    if shared.queue.len() == 0 {
        return DispatchAction::Sleep { millis: IDLE_WAIT_MILLIS };
    }
    shared.processing_count = shared.processing_count + 1;
    let batch = shared.drain_batch(BATCH_SIZE);
    let mut outcomes: Vec<Option<BulkUpdate>> = Vec::new();
    let mut i: usize = 0;
    while i < batch.len()
        invariant
            i <= batch@.len(),
            outcomes@.len() == i,
            shared@.wf(),
        decreases batch@.len() - i,
    {
        outcomes.push(P::process(&*shared, config, batch[i].0, batch[i].1.as_slice()));
        i = i + 1;
    }
    proof {
        lemma_decoded_or_failed(outcomes@);
    }
    let updates = collect_updates(outcomes);
    proof {
        lemma_reconcile_counts(old(shared)@.drained(BATCH_SIZE as nat), updates@);
        lemma_reconcile_frame(old(shared)@.drained(BATCH_SIZE as nat), shared@, updates@);
    }
    shared.reconcile(&updates);
    DispatchAction::Commit { drained: batch.len(), updates }
}

/// The class of a decoded response, given what the cache held for its
/// target.
pub fn classify_response(prior: Option<ServerState>, decoded: ServerState, window: u64) -> (class:
    Classification)
    ensures
        class == classify(prior, decoded, window),
{
    match prior {
        None => Classification::New,
        Some(before) => {
            if before.players_online == 0 && decoded.players_online > 0 && (decoded.observed_at
                <= before.observed_at || decoded.observed_at - before.observed_at <= window) {
                Classification::Revived
            } else {
                Classification::Unchanged
            }
        },
    }
}

} // verus!
