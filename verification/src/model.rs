//! The pipeline as a mathematical value, and what classification and
//! reconciliation mean on it.

use vstd::prelude::*;
use crate::address::TargetAddr;

verus! {

/// A JSON document of `serde_json`, carried through without being read.
#[verifier::external_type_specification]
#[verifier::external_body]
pub struct ExJsonValue(serde_json::Value);

/// What the pipeline reads of a decoded response.
#[derive(Clone, Copy, Debug, PartialEq, Eq, Structural)]
pub struct ServerState {
    /// How many players the server reported online.
    pub players_online: u32,
    /// When the response was observed, in seconds since the epoch.
    pub observed_at: u64,
}

/// How a decoded response relates to what was known of its server.
#[derive(Clone, Copy, Debug, PartialEq, Eq, Structural)]
pub enum Classification {
    /// The server was not in the cache.
    New,
    /// The server went from no players online to some, recently enough.
    Revived,
    /// Anything else.
    Unchanged,
}

/// The intent to upsert one server's document in the store.
#[derive(Debug)]
pub struct BulkUpdate {
    pub target: TargetAddr,
    pub state: ServerState,
    pub document: serde_json::Value,
}

/// The class of a decoded response, given what the cache held for its
/// target and the length of the recency window in seconds.
pub open spec fn classify(prior: Option<ServerState>, decoded: ServerState, window: u64)
    -> Classification {
    match prior {
        None => Classification::New,
        Some(before) => if before.players_online == 0 && decoded.players_online > 0
            && decoded.observed_at - before.observed_at <= window {
            Classification::Revived
        } else {
            Classification::Unchanged
        },
    }
}

/// The shared pipeline state as a mathematical value.
pub struct PipelineView {
    pub queue: Seq<(TargetAddr, Vec<u8>)>,
    pub cache: Map<TargetAddr, ServerState>,
    pub total_new: nat,
    pub revived: nat,
    pub results: nat,
    pub processing_count: nat,
    pub revival_window_secs: u64,
}

impl PipelineView {
    /// What the cache holds for a target.
    pub open spec fn cached(self, target: TargetAddr) -> Option<ServerState> {
        if self.cache.contains_key(target) {
            Some(self.cache[target])
        } else {
            None
        }
    }

    /// The class that a decoded response for `target` gets in this state.
    pub open spec fn classification(self, target: TargetAddr, decoded: ServerState)
        -> Classification {
        classify(self.cached(target), decoded, self.revival_window_secs)
    }

    /// The state after one decoded response was classified: the response
    /// is counted once, under its class too where that is new or revived,
    /// and replaces what the cache held for the target.
    pub open spec fn record(self, target: TargetAddr, decoded: ServerState) -> PipelineView {
        let class = self.classification(target, decoded);
        PipelineView {
            cache: self.cache.insert(target, decoded),
            total_new: if class == Classification::New {
                self.total_new + 1
            } else {
                self.total_new
            },
            revived: if class == Classification::Revived {
                self.revived + 1
            } else {
                self.revived
            },
            results: self.results + 1,
            ..self
        }
    }

    /// The state after a batch of updates was classified, first update
    /// first.
    pub open spec fn reconcile(self, updates: Seq<BulkUpdate>) -> PipelineView
        decreases updates.len(),
    {
        if updates.len() == 0 {
            self
        } else {
            self.reconcile(updates.drop_last()).record(updates.last().target, updates.last().state)
        }
    }

    /// The class of each update of a batch, each taken in the state that
    /// the updates before it left.
    pub open spec fn classes(self, updates: Seq<BulkUpdate>) -> Seq<Classification> {
        Seq::new(
            updates.len(),
            |i: int|
                self.reconcile(updates.take(i)).classification(updates[i].target, updates[i].state),
        )
    }

    /// How many entries a drain of at most `max_size` takes.
    pub open spec fn batch_len(self, max_size: nat) -> nat {
        if max_size <= self.queue.len() {
            max_size
        } else {
            self.queue.len()
        }
    }

    /// The entries that a drain of at most `max_size` takes: the oldest
    /// ones, oldest first.
    pub open spec fn first_batch(self, max_size: nat) -> Seq<(TargetAddr, Vec<u8>)> {
        self.queue.take(self.batch_len(max_size) as int)
    }

    /// The state that a drain of at most `max_size` leaves.
    pub open spec fn drained(self, max_size: nat) -> PipelineView {
        PipelineView { queue: self.queue.skip(self.batch_len(max_size) as int), ..self }
    }

    /// The state after one more entry was put on the queue.
    pub open spec fn enqueued(self, entry: (TargetAddr, Vec<u8>)) -> PipelineView {
        PipelineView { queue: self.queue.push(entry), ..self }
    }

    /// The batches that repeated drains of at most `max_size` take until
    /// the queue is empty, first batch first.
    pub open spec fn batches(self, max_size: nat) -> Seq<Seq<(TargetAddr, Vec<u8>)>>
        decreases self.queue.len(),
    {
        if self.queue.len() == 0 || max_size == 0 {
            Seq::empty()
        } else {
            seq![self.first_batch(max_size)] + self.drained(max_size).batches(max_size)
        }
    }

    /// The counters agree: no response was counted as new or revived
    /// without being counted as a result.
    pub open spec fn wf(self) -> bool {
        self.total_new + self.revived <= self.results
    }
}

/// The cache that holds each of the servers with its state, a later entry
/// for a server in place of an earlier one.
pub open spec fn cache_of(servers: Seq<(TargetAddr, ServerState)>) -> Map<TargetAddr, ServerState>
    decreases servers.len(),
{
    if servers.len() == 0 {
        Map::empty()
    } else {
        cache_of(servers.drop_last()).insert(servers.last().0, servers.last().1)
    }
}

/// The updates among the outcomes of decoding a batch, in the order of
/// the batch.
pub open spec fn decoded(outcomes: Seq<Option<BulkUpdate>>) -> Seq<BulkUpdate>
    decreases outcomes.len(),
{
    if outcomes.len() == 0 {
        Seq::empty()
    } else {
        match outcomes.last() {
            Some(update) => decoded(outcomes.drop_last()).push(update),
            None => decoded(outcomes.drop_last()),
        }
    }
}

/// How many entries of a batch decoded to nothing.
pub open spec fn failures(outcomes: Seq<Option<BulkUpdate>>) -> nat
    decreases outcomes.len(),
{
    if outcomes.len() == 0 {
        0
    } else {
        failures(outcomes.drop_last()) + if outcomes.last().is_none() {
            1nat
        } else {
            0nat
        }
    }
}

/// Every entry of a batch either gives one update or fails: the updates
/// and the failures together are as many as the entries.
pub proof fn lemma_decoded_or_failed(outcomes: Seq<Option<BulkUpdate>>)
    ensures
        decoded(outcomes).len() + failures(outcomes) == outcomes.len(),
    decreases outcomes.len(),
{
    if outcomes.len() > 0 {
        lemma_decoded_or_failed(outcomes.drop_last());
    }
}

/// How many of the classes are `class`.
pub open spec fn count_class(classes: Seq<Classification>, class: Classification) -> nat
    decreases classes.len(),
{
    if classes.len() == 0 {
        0
    } else {
        count_class(classes.drop_last(), class) + if classes.last() == class {
            1nat
        } else {
            0nat
        }
    }
}

/// The sum of the lengths of the batches.
pub open spec fn total_len(batches: Seq<Seq<(TargetAddr, Vec<u8>)>>) -> nat
    decreases batches.len(),
{
    if batches.len() == 0 {
        0
    } else {
        batches[0].len() + total_len(batches.skip(1))
    }
}

/// The entries of the batches, one batch after the other.
pub open spec fn concat(batches: Seq<Seq<(TargetAddr, Vec<u8>)>>) -> Seq<(TargetAddr, Vec<u8>)>
    decreases batches.len(),
{
    if batches.len() == 0 {
        Seq::empty()
    } else {
        batches[0] + concat(batches.skip(1))
    }
}

/// Putting an entry on the queue loses and reorders nothing: where what
/// was drained so far, followed by the queue, is what was enqueued so far,
/// it is so again with the new entry at the end.
pub proof fn lemma_enqueue_conserves(
    enqueued: Seq<(TargetAddr, Vec<u8>)>,
    drained: Seq<(TargetAddr, Vec<u8>)>,
    state: PipelineView,
    entry: (TargetAddr, Vec<u8>),
)
    requires
        enqueued == drained + state.queue,
    ensures
        enqueued.push(entry) == drained + state.enqueued(entry).queue,
{
    assert(enqueued.push(entry) =~= drained + state.enqueued(entry).queue);
}

/// A drain loses, repeats and reorders nothing: where what was drained so
/// far, followed by the queue, is what was enqueued so far, it is so again
/// with the batch added to what was drained.
pub proof fn lemma_drain_conserves(
    enqueued: Seq<(TargetAddr, Vec<u8>)>,
    drained: Seq<(TargetAddr, Vec<u8>)>,
    state: PipelineView,
    max_size: nat,
)
    requires
        enqueued == drained + state.queue,
    ensures
        enqueued == (drained + state.first_batch(max_size)) + state.drained(max_size).queue,
        state.first_batch(max_size).len() + state.drained(max_size).queue.len()
            == state.queue.len(),
        state.first_batch(max_size).len() <= max_size,
{
    assert(enqueued =~= (drained + state.first_batch(max_size)) + state.drained(
        max_size,
    ).queue);
}

/// Repeated drains of at most `max_size`, for a `max_size` above zero,
/// empty the queue in order: the batches, one after the other, are the
/// queue, their sizes add up to its length, and none but the last is
/// short of `max_size`.
pub proof fn lemma_batches_partition(state: PipelineView, max_size: nat)
    requires
        max_size > 0,
    ensures
        concat(state.batches(max_size)) == state.queue,
        total_len(state.batches(max_size)) == state.queue.len(),
        forall|i: int|
            0 <= i < state.batches(max_size).len() ==> 0 < (#[trigger] state.batches(
                max_size,
            )[i]).len() <= max_size,
        forall|i: int|
            0 <= i < state.batches(max_size).len() - 1 ==> (#[trigger] state.batches(
                max_size,
            )[i]).len() == max_size,
    decreases state.queue.len(),
{
    if state.queue.len() > 0 {
        let rest = state.drained(max_size);
        lemma_batches_partition(rest, max_size);
        let all = state.batches(max_size);
        assert(all.skip(1) =~= rest.batches(max_size));
        assert(all[0] == state.first_batch(max_size));
        assert(state.first_batch(max_size) + rest.queue =~= state.queue);
        assert forall|i: int| 0 <= i < all.len() implies 0 < (#[trigger] all[i]).len()
            <= max_size by {
            if i > 0 {
                assert(all[i] == rest.batches(max_size)[i - 1]);
            }
        }
        assert forall|i: int| 0 <= i < all.len() - 1 implies (#[trigger] all[i]).len()
            == max_size by {
            if i > 0 {
                assert(all[i] == rest.batches(max_size)[i - 1]);
            } else {
                assert(rest.batches(max_size).len() > 0);
                assert(rest.queue.len() > 0);
            }
        }
    }
}

/// The first decoded response for a target that the cache does not hold
/// is new.
pub proof fn lemma_absent_is_new(state: PipelineView, target: TargetAddr, decoded: ServerState)
    requires
        !state.cache.contains_key(target),
    ensures
        state.classification(target, decoded) == Classification::New,
{
}

/// A response for a target that follows another for the same target, and
/// agrees with it on whether any player is online, is unchanged.
pub proof fn lemma_same_players_is_unchanged(
    state: PipelineView,
    target: TargetAddr,
    first: ServerState,
    second: ServerState,
)
    requires
        (first.players_online == 0) == (second.players_online == 0),
    ensures
        state.record(target, first).classification(target, second) == Classification::Unchanged,
{
}

/// A response with players online, for a target whose response before it
/// had none, is revived where the two are no further apart than the
/// recency window, and unchanged where they are.
pub proof fn lemma_first_players_is_revived(
    state: PipelineView,
    target: TargetAddr,
    first: ServerState,
    second: ServerState,
)
    requires
        first.players_online == 0,
        second.players_online > 0,
    ensures
        second.observed_at - first.observed_at <= state.revival_window_secs ==> state.record(
            target,
            first,
        ).classification(target, second) == Classification::Revived,
        second.observed_at - first.observed_at > state.revival_window_secs ==> state.record(
            target,
            first,
        ).classification(target, second) == Classification::Unchanged,
{
}

/// The classes of a batch without its last update are the classes of the
/// batch without the last class.
pub proof fn lemma_classes_prefix(state: PipelineView, updates: Seq<BulkUpdate>)
    requires
        updates.len() > 0,
    ensures
        state.classes(updates.drop_last()) == state.classes(updates).drop_last(),
        state.classes(updates).last() == state.reconcile(updates.drop_last()).classification(
            updates.last().target,
            updates.last().state,
        ),
{
    let shorter = updates.drop_last();
    assert(updates.take(updates.len() - 1) =~= shorter);
    assert forall|i: int| 0 <= i < shorter.len() implies state.classes(shorter)[i]
        == state.classes(updates).drop_last()[i] by {
        assert(shorter.take(i) =~= updates.take(i));
    }
    assert(state.classes(shorter) =~= state.classes(updates).drop_last());
}

/// Classifying a batch counts every update once and takes nothing back:
/// the results grow by the size of the batch, the new and the revived by
/// the number of updates of that class, and the counters still agree. The
/// queue and the number of running tasks are as they were.
pub proof fn lemma_reconcile_counts(state: PipelineView, updates: Seq<BulkUpdate>)
    ensures
        state.reconcile(updates).results == state.results + updates.len(),
        state.reconcile(updates).total_new == state.total_new + count_class(
            state.classes(updates),
            Classification::New,
        ),
        state.reconcile(updates).revived == state.revived + count_class(
            state.classes(updates),
            Classification::Revived,
        ),
        state.reconcile(updates).total_new >= state.total_new,
        state.reconcile(updates).revived >= state.revived,
        state.reconcile(updates).queue == state.queue,
        state.reconcile(updates).processing_count == state.processing_count,
        state.reconcile(updates).revival_window_secs == state.revival_window_secs,
        state.wf() ==> state.reconcile(updates).wf(),
    decreases updates.len(),
{
    if updates.len() > 0 {
        lemma_reconcile_counts(state, updates.drop_last());
        lemma_classes_prefix(state, updates);
    }
}

/// Classification reads and changes the cache and the counters only: the
/// state that a batch leaves is the same whatever the queue and the number
/// of running tasks were.
pub proof fn lemma_reconcile_frame(before: PipelineView, drained: PipelineView, updates: Seq<
    BulkUpdate,
>)
    requires
        drained == (PipelineView {
            queue: drained.queue,
            processing_count: drained.processing_count,
            ..before
        }),
    ensures
        drained.reconcile(updates) == (PipelineView {
            queue: drained.queue,
            processing_count: drained.processing_count,
            ..before.reconcile(updates)
        }),
    decreases updates.len(),
{
    if updates.len() > 0 {
        lemma_reconcile_frame(before, drained, updates.drop_last());
    }
}

/// After a batch, the cache holds for each target of the batch the state
/// of the last update for it, and for every other target what it held.
pub proof fn lemma_reconcile_cache(state: PipelineView, updates: Seq<BulkUpdate>)
    ensures
        forall|target: TargetAddr|
            (forall|i: int| 0 <= i < updates.len() ==> (#[trigger] updates[i]).target != target)
                ==> state.reconcile(updates).cached(target) == state.cached(target),
        forall|i: int|
            0 <= i < updates.len() && (forall|j: int|
                i < j < updates.len() ==> (#[trigger] updates[j]).target != updates[i].target)
                ==> state.reconcile(updates).cached((#[trigger] updates[i]).target) == Some(
                updates[i].state,
            ),
    decreases updates.len(),
{
    if updates.len() > 0 {
        let shorter = updates.drop_last();
        lemma_reconcile_cache(state, shorter);
        let last = updates.last();
        assert forall|target: TargetAddr|
            (forall|i: int| 0 <= i < updates.len() ==> (#[trigger] updates[i]).target != target)
            implies state.reconcile(updates).cached(target) == state.cached(target) by {
            assert(updates[updates.len() - 1].target != target);
            assert forall|i: int| 0 <= i < shorter.len() implies (#[trigger] shorter[i]).target
                != target by {
                assert(shorter[i] == updates[i]);
            }
        }
        assert forall|i: int|
            0 <= i < updates.len() && (forall|j: int|
                i < j < updates.len() ==> (#[trigger] updates[j]).target != updates[i].target)
            implies state.reconcile(updates).cached((#[trigger] updates[i]).target) == Some(
            updates[i].state,
        ) by {
            if i < updates.len() - 1 {
                assert(updates[updates.len() - 1].target != updates[i].target);
                assert(shorter[i] == updates[i]);
                assert forall|j: int| i < j < shorter.len() implies (#[trigger] shorter[j]).target
                    != shorter[i].target by {
                    assert(shorter[j] == updates[j]);
                }
            }
        }
    }
}

/// A batch whose targets differ from one another, none of them in the
/// cache, is new throughout: the new servers grow by the size of the
/// batch, and the revived stay.
pub proof fn lemma_fresh_batch_is_new(state: PipelineView, updates: Seq<BulkUpdate>)
    requires
        forall|i: int| 0 <= i < updates.len() ==> !state.cache.contains_key(
            (#[trigger] updates[i]).target,
        ),
        forall|i: int, j: int|
            0 <= i < j < updates.len() ==> (#[trigger] updates[i]).target != (
            #[trigger] updates[j]).target,
    ensures
        state.reconcile(updates).total_new == state.total_new + updates.len(),
        state.reconcile(updates).revived == state.revived,
        state.reconcile(updates).results == state.results + updates.len(),
        forall|i: int|
            0 <= i < updates.len() ==> (#[trigger] state.classes(updates)[i])
                == Classification::New,
    decreases updates.len(),
{
    if updates.len() > 0 {
        let shorter = updates.drop_last();
        let last = updates.last();
        assert forall|i: int| 0 <= i < shorter.len() implies !state.cache.contains_key(
            (#[trigger] shorter[i]).target,
        ) by {
            assert(shorter[i] == updates[i]);
        }
        assert forall|i: int, j: int| 0 <= i < j < shorter.len() implies (
        #[trigger] shorter[i]).target != (#[trigger] shorter[j]).target by {
            assert(shorter[i] == updates[i]);
            assert(shorter[j] == updates[j]);
        }
        lemma_fresh_batch_is_new(state, shorter);
        lemma_reconcile_cache(state, shorter);
        lemma_reconcile_counts(state, shorter);
        lemma_classes_prefix(state, updates);
        assert forall|i: int| 0 <= i < shorter.len() implies (#[trigger] shorter[i]).target
            != last.target by {
            assert(shorter[i] == updates[i]);
            assert(updates[updates.len() - 1] == last);
        }
        assert(state.reconcile(shorter).cached(last.target) == state.cached(last.target));
        assert(!state.cache.contains_key(updates[updates.len() - 1].target));
        assert(state.reconcile(shorter).classification(last.target, last.state)
            == Classification::New);
        assert forall|i: int| 0 <= i < updates.len() implies (#[trigger] state.classes(
            updates,
        )[i]) == Classification::New by {
            if i < updates.len() - 1 {
                assert(state.classes(updates).drop_last()[i] == state.classes(updates)[i]);
                assert(state.classes(shorter)[i] == Classification::New);
            }
        }
    }
}

} // verus!
