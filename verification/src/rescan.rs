//! The schedule by which known servers are probed again: what each profile
//! asks of the store, and the cycle that each profile runs through on its
//! own timer.

use vstd::prelude::*;
use crate::address::TargetAddr;
use crate::config::{Config, RescanConfig};

verus! {

/// The order in which a rescan takes the servers that it selects.
#[derive(Clone, Copy, Debug, PartialEq, Eq, Structural)]
pub enum Sort {
    Random,
    Oldest,
}

/// What a profile says of when and how much to select: all of it but the
/// filter.
#[derive(Clone, Copy, Debug, PartialEq, Eq, Structural)]
pub struct RescanProfile {
    pub enabled: bool,
    pub rescan_every_secs: u64,
    pub players_online_ago_max_secs: Option<u64>,
    pub last_ping_ago_max_secs: Option<u64>,
    pub limit: Option<usize>,
    pub sort: Option<Sort>,
}

/// What one rescan asks of the store, besides the profile's filter.
#[derive(Clone, Copy, Debug, PartialEq, Eq, Structural)]
pub struct RescanQuery {
    /// Only servers that had players online at this time or later.
    pub players_online_since: Option<u64>,
    /// Only servers that were pinged at this time or later.
    pub last_ping_since: Option<u64>,
    pub limit: Option<usize>,
    pub sort: Option<Sort>,
}

/// Where a profile stands in its cycle.
#[derive(Clone, Copy, Debug, PartialEq, Eq, Structural)]
pub enum RescanPhase {
    /// Waiting for its time.
    Idle,
    /// Its query is with the store.
    Querying,
    /// Its targets are with the emitter.
    Emitting,
}

/// One profile on its own timer.
#[derive(Clone, Copy, Debug, PartialEq, Eq, Structural)]
pub struct RescanTask {
    pub profile: RescanProfile,
    pub phase: RescanPhase,
    /// The time from which the next query may start, in seconds since the
    /// epoch.
    pub next_due: u64,
}

/// What happened to a profile.
#[derive(Debug)]
pub enum RescanEvent {
    /// Time has passed.
    Tick { now: u64 },
    /// The store answered the query.
    QuerySucceeded { targets: Vec<TargetAddr> },
    /// The store failed the query.
    QueryFailed { now: u64 },
    /// The emitter took the targets.
    Emitted { now: u64 },
}

/// What is to be done for a profile.
#[derive(Debug)]
pub enum RescanAction {
    /// Nothing.
    Wait,
    /// Send the query to the store.
    Query { query: RescanQuery },
    /// Hand the targets to the emitter.
    Emit { targets: Vec<TargetAddr> },
    /// Report that the query failed.
    Report,
}

/// An event as a mathematical value.
pub enum RescanEventView {
    Tick { now: u64 },
    QuerySucceeded { targets: Seq<TargetAddr> },
    QueryFailed { now: u64 },
    Emitted { now: u64 },
}

/// An action as a mathematical value.
pub enum RescanActionView {
    Wait,
    Query { query: RescanQuery },
    Emit { targets: Seq<TargetAddr> },
    Report,
}

impl View for RescanEvent {
    type V = RescanEventView;

    open spec fn view(&self) -> RescanEventView {
        match *self {
            RescanEvent::Tick { now } => RescanEventView::Tick { now },
            RescanEvent::QuerySucceeded { targets } => RescanEventView::QuerySucceeded {
                targets: targets@,
            },
            RescanEvent::QueryFailed { now } => RescanEventView::QueryFailed { now },
            RescanEvent::Emitted { now } => RescanEventView::Emitted { now },
        }
    }
}

impl View for RescanAction {
    type V = RescanActionView;

    open spec fn view(&self) -> RescanActionView {
        match *self {
            RescanAction::Wait => RescanActionView::Wait,
            RescanAction::Query { query } => RescanActionView::Query { query },
            RescanAction::Emit { targets } => RescanActionView::Emit { targets: targets@ },
            RescanAction::Report => RescanActionView::Report,
        }
    }
}

/// The time that lies `max_ago` seconds before `now`, or the epoch where
/// that would lie before it; nothing where there is no bound.
pub open spec fn earliest(now: u64, max_ago: Option<u64>) -> Option<u64> {
    match max_ago {
        None => None,
        Some(ago) => Some(
            if ago <= now {
                (now - ago) as u64
            } else {
                0
            },
        ),
    }
}

/// The time that lies `secs` seconds after `now`, or the last time that
/// there is where that would lie beyond it.
pub open spec fn later(now: u64, secs: u64) -> u64 {
    if now + secs <= u64::MAX {
        (now + secs) as u64
    } else {
        u64::MAX
    }
}

/// The first targets of a result, as many as the limit allows.
pub open spec fn limited(targets: Seq<TargetAddr>, limit: Option<usize>) -> Seq<TargetAddr> {
    match limit {
        Some(most) if most < targets.len() => targets.take(most as int),
        _ => targets,
    }
}

impl RescanProfile {
    /// What a rescan that starts at `now` asks of the store.
    pub open spec fn spec_query_at(self, now: u64) -> RescanQuery {
        RescanQuery {
            players_online_since: earliest(now, self.players_online_ago_max_secs),
            last_ping_since: earliest(now, self.last_ping_ago_max_secs),
            limit: self.limit,
            sort: self.sort,
        }
    }

    /// What a rescan that starts at `now` asks of the store.
    pub fn query_at(&self, now: u64) -> (query: RescanQuery)
        ensures
            query == self.spec_query_at(now),
    {
        RescanQuery {
            players_online_since: seconds_before(now, self.players_online_ago_max_secs),
            last_ping_since: seconds_before(now, self.last_ping_ago_max_secs),
            limit: self.limit,
            sort: self.sort,
        }
    }
}

fn seconds_before(now: u64, max_ago: Option<u64>) -> (since: Option<u64>)
    ensures
        since == earliest(now, max_ago),
{
    match max_ago {
        None => None,
        Some(ago) => Some(
            if ago <= now {
                now - ago
            } else {
                0
            },
        ),
    }
}

fn seconds_after(now: u64, secs: u64) -> (due: u64)
    ensures
        due == later(now, secs),
{
    if secs <= u64::MAX - now {
        now + secs
    } else {
        u64::MAX
    }
}

/// Cuts a result down to the limit.
pub fn limit_targets(targets: Vec<TargetAddr>, limit: Option<usize>) -> (kept: Vec<TargetAddr>)
    ensures
        kept@ == limited(targets@, limit),
{
    let mut kept = targets;
    match limit {
        Some(most) => {
            if most < kept.len() {
                kept.truncate(most);
            }
        },
        None => {},
    }
    kept
}

impl RescanConfig {
    /// The profile without its filter.
    pub open spec fn spec_profile(self) -> RescanProfile {
        RescanProfile {
            enabled: self.enabled,
            rescan_every_secs: self.rescan_every_secs,
            players_online_ago_max_secs: self.players_online_ago_max_secs,
            last_ping_ago_max_secs: self.last_ping_ago_max_secs,
            limit: self.limit,
            sort: self.sort,
        }
    }

    /// The profile without its filter.
    pub fn profile(&self) -> (profile: RescanProfile)
        ensures
            profile == self.spec_profile(),
    {
        RescanProfile {
            enabled: self.enabled,
            rescan_every_secs: self.rescan_every_secs,
            players_online_ago_max_secs: self.players_online_ago_max_secs,
            last_ping_ago_max_secs: self.last_ping_ago_max_secs,
            limit: self.limit,
            sort: self.sort,
        }
    }
}

impl RescanTask {
    /// A task that waits and is due at once.
    pub open spec fn spec_new(profile: RescanProfile) -> RescanTask {
        RescanTask { profile, phase: RescanPhase::Idle, next_due: 0 }
    }

    /// Whether a tick at `now` starts a query.
    pub open spec fn due(self, now: u64) -> bool {
        self.phase == RescanPhase::Idle && self.profile.enabled && now >= self.next_due
    }

    /// The task back at rest, due again one interval after `now`.
    pub open spec fn rested(self, now: u64) -> RescanTask {
        RescanTask {
            phase: RescanPhase::Idle,
            next_due: later(now, self.profile.rescan_every_secs),
            ..self
        }
    }

    /// The task after an event. An event that does not belong to the
    /// task's phase leaves it as it is.
    pub open spec fn next(self, event: RescanEventView) -> RescanTask {
        match (self.phase, event) {
            (RescanPhase::Idle, RescanEventView::Tick { now }) => if self.due(now) {
                RescanTask { phase: RescanPhase::Querying, ..self }
            } else {
                self
            },
            (RescanPhase::Querying, RescanEventView::QuerySucceeded { targets }) => RescanTask {
                phase: RescanPhase::Emitting,
                ..self
            },
            (RescanPhase::Querying, RescanEventView::QueryFailed { now }) => self.rested(now),
            (RescanPhase::Emitting, RescanEventView::Emitted { now }) => self.rested(now),
            _ => self,
        }
    }

    /// What is to be done after an event.
    pub open spec fn action(self, event: RescanEventView) -> RescanActionView {
        match (self.phase, event) {
            (RescanPhase::Idle, RescanEventView::Tick { now }) => if self.due(now) {
                RescanActionView::Query { query: self.profile.spec_query_at(now) }
            } else {
                RescanActionView::Wait
            },
            (RescanPhase::Querying, RescanEventView::QuerySucceeded { targets }) => {
                RescanActionView::Emit { targets: limited(targets, self.profile.limit) }
            },
            (RescanPhase::Querying, RescanEventView::QueryFailed { now }) => {
                RescanActionView::Report
            },
            _ => RescanActionView::Wait,
        }
    }

    /// A task that waits and is due at once.
    pub fn new(profile: RescanProfile) -> (task: RescanTask)
        ensures
            task == RescanTask::spec_new(profile),
    {
        RescanTask { profile, phase: RescanPhase::Idle, next_due: 0 }
    }

    /// Takes an event and says what is to be done.
    pub fn step(&mut self, event: RescanEvent) -> (action: RescanAction)
        ensures
            *final(self) == old(self).next(event@),
            action@ == old(self).action(event@),
    {
        match event {
            RescanEvent::Tick { now } => {
                if matches!(self.phase, RescanPhase::Idle) && self.profile.enabled && now
                    >= self.next_due {
                    self.phase = RescanPhase::Querying;
                    RescanAction::Query { query: self.profile.query_at(now) }
                } else {
                    RescanAction::Wait
                }
            },
            RescanEvent::QuerySucceeded { targets } => {
                if matches!(self.phase, RescanPhase::Querying) {
                    self.phase = RescanPhase::Emitting;
                    RescanAction::Emit { targets: limit_targets(targets, self.profile.limit) }
                } else {
                    RescanAction::Wait
                }
            },
            RescanEvent::QueryFailed { now } => {
                if matches!(self.phase, RescanPhase::Querying) {
                    self.phase = RescanPhase::Idle;
                    self.next_due = seconds_after(now, self.profile.rescan_every_secs);
                    RescanAction::Report
                } else {
                    RescanAction::Wait
                }
            },
            RescanEvent::Emitted { now } => {
                if matches!(self.phase, RescanPhase::Emitting) {
                    self.phase = RescanPhase::Idle;
                    self.next_due = seconds_after(now, self.profile.rescan_every_secs);
                }
                RescanAction::Wait
            },
        }
    }
}

/// The profiles of one scan run, each on its own timer.
#[derive(Debug)]
pub struct RescanScheduler {
    pub tasks: Vec<RescanTask>,
}

/// The tasks after an event for the task at `index`: that task has taken
/// the event, and every other task is as it was. An index beyond the
/// tasks changes nothing.
pub open spec fn step_tasks(tasks: Seq<RescanTask>, index: int, event: RescanEventView) -> Seq<
    RescanTask,
> {
    if 0 <= index < tasks.len() {
        tasks.update(index, tasks[index].next(event))
    } else {
        tasks
    }
}

/// What is to be done after an event for the task at `index`.
pub open spec fn step_action(tasks: Seq<RescanTask>, index: int, event: RescanEventView)
    -> RescanActionView {
    if 0 <= index < tasks.len() {
        tasks[index].action(event)
    } else {
        RescanActionView::Wait
    }
}

/// The tasks that a configuration starts with: its five profiles in
/// order, each at rest and due at once.
pub open spec fn tasks_of(config: Config) -> Seq<RescanTask> {
    seq![
        RescanTask::spec_new(config.rescan.spec_profile()),
        RescanTask::spec_new(config.rescan2.spec_profile()),
        RescanTask::spec_new(config.rescan3.spec_profile()),
        RescanTask::spec_new(config.rescan4.spec_profile()),
        RescanTask::spec_new(config.rescan5.spec_profile()),
    ]
}

impl RescanScheduler {
    /// The scheduler of a configuration's five profiles.
    pub fn new(config: &Config) -> (scheduler: RescanScheduler)
        ensures
            scheduler.tasks@ == tasks_of(*config),
    {
        let mut tasks: Vec<RescanTask> = Vec::new();
        tasks.push(RescanTask::new(config.rescan.profile()));
        tasks.push(RescanTask::new(config.rescan2.profile()));
        tasks.push(RescanTask::new(config.rescan3.profile()));
        tasks.push(RescanTask::new(config.rescan4.profile()));
        tasks.push(RescanTask::new(config.rescan5.profile()));
        assert(tasks@ =~= tasks_of(*config));
        RescanScheduler { tasks }
    }

    /// Hands an event to the task at `index` and says what is to be done
    /// for it. No other task is touched.
    pub fn step(&mut self, index: usize, event: RescanEvent) -> (action: RescanAction)
        ensures
            final(self).tasks@ == step_tasks(old(self).tasks@, index as int, event@),
            action@ == step_action(old(self).tasks@, index as int, event@),
            final(self).tasks@.len() == old(self).tasks@.len(),
            forall|other: int|
                0 <= other < old(self).tasks@.len() && other != index ==> final(self).tasks@[other]
                    == old(self).tasks@[other],
    {
        if index < self.tasks.len() {
            let mut task = self.tasks[index];
            let action = task.step(event);
            self.tasks[index] = task;
            action
        } else {
            RescanAction::Wait
        }
    }
}

/// A failed query brings the profile back to rest with nothing else about
/// it changed: it stays switched on, and a tick one interval later starts
/// its next query.
pub proof fn lemma_failure_returns_to_idle(task: RescanTask, now: u64, again: u64)
    requires
        task.phase == RescanPhase::Querying,
    ensures
        task.next(RescanEventView::QueryFailed { now }).phase == RescanPhase::Idle,
        task.next(RescanEventView::QueryFailed { now }).profile == task.profile,
        task.action(RescanEventView::QueryFailed { now }) == RescanActionView::Report,
        task.profile.enabled && again >= later(now, task.profile.rescan_every_secs) ==> task.next(
            RescanEventView::QueryFailed { now },
        ).next(RescanEventView::Tick { now: again }).phase == RescanPhase::Querying,
{
}

/// A profile that is switched on and due goes through its whole cycle and
/// comes back to rest: a tick starts the query, the answer starts the
/// emission of the targets that the limit allows, and the end of the
/// emission ends the cycle.
pub proof fn lemma_cycle(task: RescanTask, start: u64, targets: Seq<TargetAddr>, end: u64)
    requires
        task.due(start),
    ensures
        task.next(RescanEventView::Tick { now: start }).phase == RescanPhase::Querying,
        task.action(RescanEventView::Tick { now: start }) == (RescanActionView::Query {
            query: task.profile.spec_query_at(start),
        }),
        task.next(RescanEventView::Tick { now: start }).next(
            RescanEventView::QuerySucceeded { targets },
        ).phase == RescanPhase::Emitting,
        task.next(RescanEventView::Tick { now: start }).action(
            RescanEventView::QuerySucceeded { targets },
        ) == (RescanActionView::Emit { targets: limited(targets, task.profile.limit) }),
        task.next(RescanEventView::Tick { now: start }).next(
            RescanEventView::QuerySucceeded { targets },
        ).next(RescanEventView::Emitted { now: end }) == task.rested(end),
{
}

/// Profiles do not interfere: whatever happens to one profile, a failed
/// query included, another profile takes its own events as if the first
/// had not been there, and the order in which the two take theirs does
/// not matter.
pub proof fn lemma_profiles_independent(
    tasks: Seq<RescanTask>,
    a: int,
    event_a: RescanEventView,
    b: int,
    event_b: RescanEventView,
)
    requires
        0 <= a < tasks.len(),
        0 <= b < tasks.len(),
        a != b,
    ensures
        step_tasks(tasks, a, event_a)[b] == tasks[b],
        step_action(step_tasks(tasks, a, event_a), b, event_b) == step_action(tasks, b, event_b),
        step_tasks(step_tasks(tasks, a, event_a), b, event_b)[b] == step_tasks(
            tasks,
            b,
            event_b,
        )[b],
        step_tasks(step_tasks(tasks, a, event_a), b, event_b) == step_tasks(
            step_tasks(tasks, b, event_b),
            a,
            event_a,
        ),
{
    assert(step_tasks(step_tasks(tasks, a, event_a), b, event_b) =~= step_tasks(
        step_tasks(tasks, b, event_b),
        a,
        event_a,
    ));
}

} // verus!
