//! The decisions of a node's worker pool.
//!
//! A node runs three kinds of activity: executors that work on tasks, one
//! finder that takes tasks from the feed when an executor asks for work, and
//! one requeuer that puts stalled tasks back. Each is a state machine here.
//! The caller performs the action that the state asks for (a sleep, a
//! request to the store, a hand-over between activities), reports what came
//! of it as an event, and gets the next state.

use vstd::prelude::*;

use crate::kv::Revision;
use crate::task::{PriorityKey, Task, TaskId, TaskKey, TaskState};
use crate::time::{Timestamp, WorkTime};

verus! {

/// An executor reports progress after this much work at the latest: 5 s.
pub const FEEDBACK_INTERVAL_NANOS: u128 = 5_000_000_000;

/// A running task that was not updated for this long is stalled: 10 s.
pub const WORK_TIMEOUT_NANOS: i128 = 10_000_000_000;

/// The pause after a round that found nothing to do: 500 ms.
pub const IDLE_PAUSE_NANOS: u128 = 500_000_000;

/// The pause after a failure: 5 s.
pub const ERROR_PAUSE_NANOS: u128 = 5_000_000_000;

/// Rows read from the store in one round of the finder or the requeuer.
pub const BATCH_LIMIT: i64 = 10;

/// The work done before the next report: all that remains, but no more than
/// the feedback interval.
pub open spec fn share_of(remaining: WorkTime) -> WorkTime {
    if remaining.nanos <= FEEDBACK_INTERVAL_NANOS {
        remaining
    } else {
        WorkTime { nanos: FEEDBACK_INTERVAL_NANOS }
    }
}

/// Computes [`share_of`].
pub fn work_share(remaining: WorkTime) -> (share: WorkTime)
    ensures
        share == share_of(remaining),
        share.nanos <= remaining.nanos,
        share.nanos <= FEEDBACK_INTERVAL_NANOS,
        share.nanos == 0 <==> remaining.nanos == 0,
{
    remaining.min(WorkTime { nanos: FEEDBACK_INTERVAL_NANOS })
}

/// Whether `task` went without an update for the work timeout or longer,
/// as seen at `now`.
pub open spec fn stalled(task: Task, now: Timestamp) -> bool {
    now.instant() - task.value.updated_at.instant() >= WORK_TIMEOUT_NANOS
}

/// Computes [`stalled`].
pub fn is_stalled(task: &Task, now: &Timestamp) -> (b: bool)
    ensures
        b == stalled(*task, *now),
{
    now.nanos_since(&task.value.updated_at) >= WORK_TIMEOUT_NANOS
}

/// What an executor is doing.
#[derive(Debug, PartialEq, Eq)]
pub enum Executor {
    /// Announcing that it is ready for work.
    Requesting,
    /// Waiting for the finder to hand a task over.
    Waiting,
    /// Doing `share` of the work of `task`.
    Working { task: Task, revision: Revision, share: WorkTime },
    /// Recording that `share` of the work of `task` was done.
    Recording { task: Task, revision: Revision, share: WorkTime },
    /// Removing the task, whose work is done.
    Finishing { key: TaskKey, revision: Revision },
    /// Pausing after a failure.
    Pausing,
}

/// What happened to the action that an executor asked for.
#[derive(Debug, PartialEq, Eq)]
pub enum ExecutorEvent {
    /// The announcement was placed.
    Requested,
    /// The finder handed a task over.
    Work { task: Task, revision: Revision },
    /// The sleep ended.
    Woke,
    /// The store answered the attempt to record progress: with the task as
    /// recorded, or with `None` where another node had changed it.
    Progressed { update: Option<(Task, Revision)> },
    /// The store answered the attempt to remove the task.
    Finished { removed: bool },
    /// The store could not be asked, or its answer could not be read.
    Failed,
}

/// What an executor asks its caller to do next.
#[derive(Debug, PartialEq, Eq)]
pub enum ExecutorAction {
    RequestWork,
    AwaitWork,
    Sleep { time: WorkTime },
    Progress { task: Task, revision: Revision, share: WorkTime },
    Finish { key: TaskKey, revision: Revision },
}

impl Executor {
    /// The state of an executor that was handed `task`: working on its next
    /// share, or, where no work remains, finishing at once.
    pub open spec fn taking_up(task: Task, revision: Revision) -> Executor {
        if task.value.remaining.nanos == 0 {
            Executor::Finishing { key: task.key, revision }
        } else {
            Executor::Working { task, revision, share: share_of(task.value.remaining) }
        }
    }

    /// The state that follows `self` on `event`. An event that the state
    /// does not wait for changes nothing.
    pub open spec fn after(self, event: ExecutorEvent) -> Executor {
        match (self, event) {
            (Executor::Requesting, ExecutorEvent::Requested) => Executor::Waiting,
            (Executor::Waiting, ExecutorEvent::Work { task, revision }) => Executor::taking_up(
                task,
                revision,
            ),
            (Executor::Working { task, revision, share }, ExecutorEvent::Woke) => {
                Executor::Recording { task, revision, share }
            },
            (Executor::Recording { .. }, ExecutorEvent::Progressed { update: Some(update) }) => {
                Executor::taking_up(update.0, update.1)
            },
            (Executor::Recording { .. }, ExecutorEvent::Progressed { update: None }) => {
                Executor::Requesting
            },
            (Executor::Recording { .. }, ExecutorEvent::Failed) => Executor::Pausing,
            (Executor::Finishing { .. }, ExecutorEvent::Finished { .. }) => Executor::Requesting,
            (Executor::Finishing { .. }, ExecutorEvent::Failed) => Executor::Pausing,
            (Executor::Pausing, ExecutorEvent::Woke) => Executor::Requesting,
            (state, _) => state,
        }
    }

    /// What the state asks the caller to do.
    pub open spec fn wants(self) -> ExecutorAction {
        match self {
            Executor::Requesting => ExecutorAction::RequestWork,
            Executor::Waiting => ExecutorAction::AwaitWork,
            Executor::Working { share, .. } => ExecutorAction::Sleep { time: share },
            Executor::Recording { task, revision, share } => ExecutorAction::Progress {
                task,
                revision,
                share,
            },
            Executor::Finishing { key, revision } => ExecutorAction::Finish { key, revision },
            Executor::Pausing => ExecutorAction::Sleep {
                time: WorkTime { nanos: ERROR_PAUSE_NANOS },
            },
        }
    }

    /// While an executor holds a task with work left, the share it works on
    /// is some work, no more than the task still owes, and no more than the
    /// feedback interval.
    pub open spec fn well_formed(self) -> bool {
        match self {
            Executor::Working { task, share, .. } | Executor::Recording { task, share, .. } => {
                &&& 0 < share.nanos <= task.value.remaining.nanos
                &&& share.nanos <= FEEDBACK_INTERVAL_NANOS
            },
            _ => true,
        }
    }

    /// An executor starts by announcing that it is ready.
    pub fn start() -> (state: Self)
        ensures
            state == Executor::Requesting,
            state.well_formed(),
    {
        Executor::Requesting
    }

    /// Computes [`Executor::taking_up`].
    pub fn take_up(task: Task, revision: Revision) -> (state: Self)
        ensures
            state == Executor::taking_up(task, revision),
            state.well_formed(),
    {
        if task.value.remaining.is_zero() {
            Executor::Finishing { key: task.key, revision }
        } else {
            let share = work_share(task.value.remaining);
            Executor::Working { task, revision, share }
        }
    }

    /// Computes [`Executor::after`].
    pub fn step(self, event: ExecutorEvent) -> (next: Self)
        ensures
            next == self.after(event),
            self.well_formed() ==> next.well_formed(),
    {
        match self {
            Executor::Requesting => match event {
                ExecutorEvent::Requested => Executor::Waiting,
                _ => Executor::Requesting,
            },
            Executor::Waiting => match event {
                ExecutorEvent::Work { task, revision } => Executor::take_up(task, revision),
                _ => Executor::Waiting,
            },
            Executor::Working { task, revision, share } => match event {
                ExecutorEvent::Woke => Executor::Recording { task, revision, share },
                _ => Executor::Working { task, revision, share },
            },
            Executor::Recording { task, revision, share } => match event {
                ExecutorEvent::Progressed { update: Some(update) } => Executor::take_up(
                    update.0,
                    update.1,
                ),
                ExecutorEvent::Progressed { update: None } => Executor::Requesting,
                ExecutorEvent::Failed => Executor::Pausing,
                _ => Executor::Recording { task, revision, share },
            },
            Executor::Finishing { key, revision } => match event {
                ExecutorEvent::Finished { .. } => Executor::Requesting,
                ExecutorEvent::Failed => Executor::Pausing,
                _ => Executor::Finishing { key, revision },
            },
            Executor::Pausing => match event {
                ExecutorEvent::Woke => Executor::Requesting,
                _ => Executor::Pausing,
            },
        }
    }

    /// Computes [`Executor::wants`].
    pub fn action(&self) -> (action: ExecutorAction)
        ensures
            action == self.wants(),
    {
        match self {
            Executor::Requesting => ExecutorAction::RequestWork,
            Executor::Waiting => ExecutorAction::AwaitWork,
            Executor::Working { share, .. } => ExecutorAction::Sleep { time: *share },
            Executor::Recording { task, revision, share } => ExecutorAction::Progress {
                task: task.clone(),
                revision: *revision,
                share: *share,
            },
            Executor::Finishing { key, revision } => ExecutorAction::Finish {
                key: *key,
                revision: *revision,
            },
            Executor::Pausing => ExecutorAction::Sleep {
                time: WorkTime { nanos: ERROR_PAUSE_NANOS },
            },
        }
    }
}

/// An executor never records more work than the task owes, never sleeps on
/// a task without doing some of its work, and never works longer than the
/// feedback interval before it reports; and a task that owes nothing when
/// it is handed over is finished at once, without a sleep.
pub proof fn lemma_executor_shares(state: Executor, task: Task, revision: Revision)
    requires
        state.well_formed(),
    ensures
        state.wants() matches ExecutorAction::Progress { task, share, .. } ==> 0 < share.nanos
            <= task.value.remaining.nanos,
        state matches Executor::Working { share, .. } ==> 0 < share.nanos
            <= FEEDBACK_INTERVAL_NANOS,
        task.value.remaining.nanos == 0 ==> Executor::taking_up(task, revision).wants() == (
        ExecutorAction::Finish { key: task.key, revision }),
        task.value.remaining.nanos > 0 ==> Executor::taking_up(task, revision).wants() == (
        ExecutorAction::Sleep { time: share_of(task.value.remaining) }),
{
}

/// An executor that reports in time is not taken for stalled: a task that
/// was updated less than the work timeout ago is not stalled, and the
/// feedback interval is half the work timeout.
pub proof fn lemma_live_executor_keeps_task(task: Task, now: Timestamp)
    requires
        now.instant() - task.value.updated_at.instant() < WORK_TIMEOUT_NANOS,
    ensures
        !stalled(task, now),
        2 * FEEDBACK_INTERVAL_NANOS <= WORK_TIMEOUT_NANOS,
{
}

/// What the finder is doing.
#[derive(Debug, PartialEq, Eq)]
pub enum Finder {
    /// Waiting for an executor to ask for work.
    Idle,
    /// Reading the head of the feed.
    Listing,
    /// Looking up the task of the entry at place `at`.
    Looking { entries: Vec<PriorityKey>, at: usize },
    /// Trying to take `task`, which is the task of the entry at place `at`.
    Taking { entries: Vec<PriorityKey>, at: usize, task: Task, revision: Revision },
    /// Handing `task` to the executor that asked.
    Delivering { task: Task, revision: Revision },
    /// Pausing before the next round.
    Pausing { time: WorkTime },
}

/// What happened to the action that the finder asked for.
#[derive(Debug, PartialEq, Eq)]
pub enum FinderEvent {
    /// An executor asked for work.
    Demand,
    /// The store listed the head of the feed.
    Listed { entries: Vec<PriorityKey> },
    /// The store answered the lookup: with the task, or with `None`.
    Found { row: Option<(Task, Revision)> },
    /// The store answered the lookup with bytes that cannot be read.
    Unreadable,
    /// The store answered the attempt to take the task: with the task as
    /// taken, or with `None` where another node had changed it.
    Acquired { update: Option<(Task, Revision)> },
    /// The executor received the task.
    Delivered,
    /// The sleep ended.
    Woke,
    /// The store could not be asked, or its answer could not be read.
    Failed,
}

/// What the finder asks its caller to do next.
#[derive(Debug, PartialEq, Eq)]
pub enum FinderAction {
    AwaitDemand,
    /// List the feed, smallest key first, `limit` entries at most.
    List { limit: i64 },
    /// Look the task up among the queued tasks.
    Find { id: TaskId },
    Acquire { task: Task, revision: Revision },
    Deliver { task: Task, revision: Revision },
    Sleep { time: WorkTime },
}

impl Finder {
    /// The state of the finder as it turns to the entry at place `at`:
    /// looking it up, or, where the entries are used up, pausing before the
    /// next round.
    pub open spec fn turning_to(entries: Vec<PriorityKey>, at: int) -> Finder {
        if 0 <= at < entries@.len() {
            Finder::Looking { entries, at: at as usize }
        } else {
            Finder::Pausing { time: WorkTime { nanos: IDLE_PAUSE_NANOS } }
        }
    }

    /// The state that follows `self` on `event`. An event that the state
    /// does not wait for changes nothing.
    pub open spec fn after(self, event: FinderEvent) -> Finder {
        match (self, event) {
            (Finder::Idle, FinderEvent::Demand) => Finder::Listing,
            (Finder::Listing, FinderEvent::Listed { entries }) => Finder::turning_to(entries, 0),
            (Finder::Listing, FinderEvent::Failed) => Finder::Pausing {
                time: WorkTime { nanos: ERROR_PAUSE_NANOS },
            },
            (Finder::Looking { entries, at }, FinderEvent::Found { row: Some(row) }) => {
                if row.0.key.state == TaskState::Queued {
                    Finder::Taking { entries, at, task: row.0, revision: row.1 }
                } else {
                    Finder::turning_to(entries, at + 1)
                }
            },
            (Finder::Looking { entries, at }, FinderEvent::Found { row: None }) => {
                Finder::turning_to(entries, at + 1)
            },
            (Finder::Looking { entries, at }, FinderEvent::Unreadable) => Finder::turning_to(
                entries,
                at + 1,
            ),
            (Finder::Looking { .. }, FinderEvent::Failed) => Finder::Pausing {
                time: WorkTime { nanos: ERROR_PAUSE_NANOS },
            },
            (Finder::Taking { .. }, FinderEvent::Acquired { update: Some(update) }) => {
                Finder::Delivering { task: update.0, revision: update.1 }
            },
            (Finder::Taking { entries, at, .. }, FinderEvent::Acquired { update: None }) => {
                Finder::turning_to(entries, at + 1)
            },
            (Finder::Taking { .. }, FinderEvent::Failed) => Finder::Pausing {
                time: WorkTime { nanos: ERROR_PAUSE_NANOS },
            },
            (Finder::Delivering { .. }, FinderEvent::Delivered) => Finder::Idle,
            (Finder::Pausing { .. }, FinderEvent::Woke) => Finder::Listing,
            (state, _) => state,
        }
    }

    /// What the state asks the caller to do. A lookup whose place lies
    /// beyond the entries asks for the pause that ends a round.
    pub open spec fn wants(self) -> FinderAction {
        match self {
            Finder::Idle => FinderAction::AwaitDemand,
            Finder::Listing => FinderAction::List { limit: BATCH_LIMIT },
            Finder::Looking { entries, at } => if at < entries@.len() {
                FinderAction::Find { id: entries@[at as int].id }
            } else {
                FinderAction::Sleep { time: WorkTime { nanos: IDLE_PAUSE_NANOS } }
            },
            Finder::Taking { task, revision, .. } => FinderAction::Acquire { task, revision },
            Finder::Delivering { task, revision } => FinderAction::Deliver { task, revision },
            Finder::Pausing { time } => FinderAction::Sleep { time },
        }
    }

    /// The place of a lookup lies within the entries.
    pub open spec fn well_formed(self) -> bool {
        match self {
            Finder::Looking { entries, at } => at < entries@.len(),
            Finder::Taking { entries, at, task, .. } => {
                &&& at < entries@.len()
                &&& task.key.state == TaskState::Queued
            },
            _ => true,
        }
    }

    /// The finder starts idle: it reads nothing until work is asked for.
    pub fn start() -> (state: Self)
        ensures
            state == Finder::Idle,
            state.well_formed(),
    {
        Finder::Idle
    }

    /// Computes [`Finder::turning_to`].
    fn turn_to(entries: Vec<PriorityKey>, at: usize) -> (state: Self)
        ensures
            state == Finder::turning_to(entries, at as int),
            state.well_formed(),
    {
        if at < entries.len() {
            Finder::Looking { entries, at }
        } else {
            Finder::Pausing { time: WorkTime { nanos: IDLE_PAUSE_NANOS } }
        }
    }

    /// Computes [`Finder::after`].
    pub fn step(self, event: FinderEvent) -> (next: Self)
        ensures
            next == self.after(event),
            self.well_formed() ==> next.well_formed(),
    {
        match self {
            Finder::Idle => match event {
                FinderEvent::Demand => Finder::Listing,
                _ => Finder::Idle,
            },
            Finder::Listing => match event {
                FinderEvent::Listed { entries } => Finder::turn_to(entries, 0),
                FinderEvent::Failed => Finder::Pausing {
                    time: WorkTime { nanos: ERROR_PAUSE_NANOS },
                },
                _ => Finder::Listing,
            },
            Finder::Looking { entries, at } => match event {
                FinderEvent::Found { row: Some(row) } => {
                    if at < entries.len() {
                        match row.0.key.state {
                            TaskState::Queued => Finder::Taking {
                                entries,
                                at,
                                task: row.0,
                                revision: row.1,
                            },
                            TaskState::Running => Finder::turn_to(entries, at + 1),
                        }
                    } else {
                        match row.0.key.state {
                            TaskState::Queued => Finder::Taking {
                                entries,
                                at,
                                task: row.0,
                                revision: row.1,
                            },
                            TaskState::Running => Finder::Pausing {
                                time: WorkTime { nanos: IDLE_PAUSE_NANOS },
                            },
                        }
                    }
                },
                FinderEvent::Found { row: None } | FinderEvent::Unreadable => {
                    if at < entries.len() {
                        Finder::turn_to(entries, at + 1)
                    } else {
                        Finder::Pausing { time: WorkTime { nanos: IDLE_PAUSE_NANOS } }
                    }
                },
                FinderEvent::Failed => Finder::Pausing {
                    time: WorkTime { nanos: ERROR_PAUSE_NANOS },
                },
                _ => Finder::Looking { entries, at },
            },
            Finder::Taking { entries, at, task, revision } => match event {
                FinderEvent::Acquired { update: Some(update) } => Finder::Delivering {
                    task: update.0,
                    revision: update.1,
                },
                FinderEvent::Acquired { update: None } => {
                    if at < entries.len() {
                        Finder::turn_to(entries, at + 1)
                    } else {
                        Finder::Pausing { time: WorkTime { nanos: IDLE_PAUSE_NANOS } }
                    }
                },
                FinderEvent::Failed => Finder::Pausing {
                    time: WorkTime { nanos: ERROR_PAUSE_NANOS },
                },
                _ => Finder::Taking { entries, at, task, revision },
            },
            Finder::Delivering { task, revision } => match event {
                FinderEvent::Delivered => Finder::Idle,
                _ => Finder::Delivering { task, revision },
            },
            Finder::Pausing { time } => match event {
                FinderEvent::Woke => Finder::Listing,
                _ => Finder::Pausing { time },
            },
        }
    }

    /// Computes [`Finder::wants`].
    pub fn action(&self) -> (action: FinderAction)
        ensures
            action == self.wants(),
    {
        match self {
            Finder::Idle => FinderAction::AwaitDemand,
            Finder::Listing => FinderAction::List { limit: BATCH_LIMIT },
            Finder::Looking { entries, at } => {
                if *at < entries.len() {
                    FinderAction::Find { id: entries[*at].id }
                } else {
                    FinderAction::Sleep { time: WorkTime { nanos: IDLE_PAUSE_NANOS } }
                }
            },
            Finder::Taking { task, revision, .. } => FinderAction::Acquire {
                task: task.clone(),
                revision: *revision,
            },
            Finder::Delivering { task, revision } => FinderAction::Deliver {
                task: task.clone(),
                revision: *revision,
            },
            Finder::Pausing { time } => FinderAction::Sleep { time: *time },
        }
    }
}

/// The finder touches the store only on demand, and takes one task for
/// each demand: it starts idle, stays idle until work is asked for, and is
/// idle again as soon as a task was handed over. It looks entries up in the
/// order of the feed, and tries to take only tasks that are queued.
pub proof fn lemma_finder_follows_demand(state: Finder, event: FinderEvent)
    requires
        state.well_formed(),
    ensures
        state == Finder::Idle ==> state.wants() == FinderAction::AwaitDemand,
        state == Finder::Idle && event != FinderEvent::Demand ==> state.after(event) == Finder::Idle,
        state.after(event) == Finder::Idle ==> state == Finder::Idle || (state is Delivering
            && event == FinderEvent::Delivered),
        state.after(event) is Delivering ==> (state is Delivering || (state is Taking
            && event matches FinderEvent::Acquired { update: Some(_) })),
        state.wants() matches FinderAction::Acquire { task, .. } ==> task.key.state
            == TaskState::Queued,
        state matches Finder::Looking { entries, at } ==> state.wants() == (FinderAction::Find {
            id: entries@[at as int].id,
        }),
{
}

/// The place of the first stalled task among `tasks` from place `from` on;
/// the number of tasks where there is none.
pub open spec fn next_stalled(tasks: Seq<(Task, Revision)>, from: int, now: Timestamp) -> int
    decreases tasks.len() - from,
{
    if from < 0 || from >= tasks.len() {
        tasks.len() as int
    } else if stalled(tasks[from].0, now) {
        from
    } else {
        next_stalled(tasks, from + 1, now)
    }
}

/// What the requeuer is doing.
#[derive(Debug, PartialEq, Eq)]
pub enum Requeuer {
    /// Reading running tasks from the store.
    Listing,
    /// Putting the stalled task at place `at` back in the queue. `now` is
    /// the time at which the tasks were judged.
    Requeueing { tasks: Vec<(Task, Revision)>, at: usize, now: Timestamp },
    /// Pausing before the next round.
    Pausing { time: WorkTime },
}

/// What happened to the action that the requeuer asked for.
#[derive(Debug, PartialEq, Eq)]
pub enum RequeuerEvent {
    /// The store listed running tasks; the clock showed `now` afterwards.
    Listed { tasks: Vec<(Task, Revision)>, now: Timestamp },
    /// The store answered the attempt to requeue, whichever way.
    Requeued,
    /// The sleep ended.
    Woke,
    /// The store could not be asked, or its answer could not be read.
    Failed,
}

/// What the requeuer asks its caller to do next.
#[derive(Debug, PartialEq, Eq)]
pub enum RequeuerAction {
    /// List running tasks, `limit` at most.
    List { limit: i64 },
    Requeue { task: Task, revision: Revision },
    Sleep { time: WorkTime },
}

impl Requeuer {
    /// The state of the requeuer as it turns to the tasks from place `from`
    /// on: requeueing the first stalled one, or, where none is stalled,
    /// pausing before the next round.
    pub open spec fn turning_to(tasks: Vec<(Task, Revision)>, from: int, now: Timestamp) -> Requeuer {
        let at = next_stalled(tasks@, from, now);
        if at < tasks@.len() {
            Requeuer::Requeueing { tasks, at: at as usize, now }
        } else {
            Requeuer::Pausing { time: WorkTime { nanos: IDLE_PAUSE_NANOS } }
        }
    }

    /// The state that follows `self` on `event`. An event that the state
    /// does not wait for changes nothing. That an attempt to requeue was
    /// refused is of no account: another node had changed the task.
    pub open spec fn after(self, event: RequeuerEvent) -> Requeuer {
        match (self, event) {
            (Requeuer::Listing, RequeuerEvent::Listed { tasks, now }) => Requeuer::turning_to(
                tasks,
                0,
                now,
            ),
            (Requeuer::Listing, RequeuerEvent::Failed) => Requeuer::Pausing {
                time: WorkTime { nanos: ERROR_PAUSE_NANOS },
            },
            (Requeuer::Requeueing { tasks, at, now }, RequeuerEvent::Requeued) => {
                Requeuer::turning_to(tasks, at + 1, now)
            },
            (Requeuer::Requeueing { .. }, RequeuerEvent::Failed) => Requeuer::Pausing {
                time: WorkTime { nanos: ERROR_PAUSE_NANOS },
            },
            (Requeuer::Pausing { .. }, RequeuerEvent::Woke) => Requeuer::Listing,
            (state, _) => state,
        }
    }

    /// What the state asks the caller to do. A place that lies beyond the
    /// tasks asks for the pause that ends a round.
    pub open spec fn wants(self) -> RequeuerAction {
        match self {
            Requeuer::Listing => RequeuerAction::List { limit: BATCH_LIMIT },
            Requeuer::Requeueing { tasks, at, .. } => if at < tasks@.len() {
                RequeuerAction::Requeue { task: tasks@[at as int].0, revision: tasks@[at as int].1 }
            } else {
                RequeuerAction::Sleep { time: WorkTime { nanos: IDLE_PAUSE_NANOS } }
            },
            Requeuer::Pausing { time } => RequeuerAction::Sleep { time },
        }
    }

    /// The task that is being requeued is one of the tasks listed, and it
    /// is stalled.
    pub open spec fn well_formed(self) -> bool {
        match self {
            Requeuer::Requeueing { tasks, at, now } => {
                &&& at < tasks@.len()
                &&& stalled(tasks@[at as int].0, now)
            },
            _ => true,
        }
    }

    /// The requeuer starts with a listing; it waits for no demand.
    pub fn start() -> (state: Self)
        ensures
            state == Requeuer::Listing,
            state.well_formed(),
    {
        Requeuer::Listing
    }

    /// Computes [`Requeuer::turning_to`].
    fn turn_to(tasks: Vec<(Task, Revision)>, from: usize, now: Timestamp) -> (state: Self)
        ensures
            state == Requeuer::turning_to(tasks, from as int, now),
            state.well_formed(),
    {
        let mut at: usize = from;
        while at < tasks.len()
            invariant
                from <= at,
                next_stalled(tasks@, from as int, now) == next_stalled(tasks@, at as int, now),
            decreases tasks.len() - at,
        {
            if is_stalled(&tasks[at].0, &now) {
                return Requeuer::Requeueing { tasks, at, now };
            }
            at += 1;
        }
        Requeuer::Pausing { time: WorkTime { nanos: IDLE_PAUSE_NANOS } }
    }

    /// Computes [`Requeuer::after`].
    pub fn step(self, event: RequeuerEvent) -> (next: Self)
        ensures
            next == self.after(event),
            self.well_formed() ==> next.well_formed(),
    {
        match self {
            Requeuer::Listing => match event {
                RequeuerEvent::Listed { tasks, now } => Requeuer::turn_to(tasks, 0, now),
                RequeuerEvent::Failed => Requeuer::Pausing {
                    time: WorkTime { nanos: ERROR_PAUSE_NANOS },
                },
                _ => Requeuer::Listing,
            },
            Requeuer::Requeueing { tasks, at, now } => match event {
                RequeuerEvent::Requeued => {
                    if at < tasks.len() {
                        Requeuer::turn_to(tasks, at + 1, now)
                    } else {
                        Requeuer::Pausing { time: WorkTime { nanos: IDLE_PAUSE_NANOS } }
                    }
                },
                RequeuerEvent::Failed => Requeuer::Pausing {
                    time: WorkTime { nanos: ERROR_PAUSE_NANOS },
                },
                _ => Requeuer::Requeueing { tasks, at, now },
            },
            Requeuer::Pausing { time } => match event {
                RequeuerEvent::Woke => Requeuer::Listing,
                _ => Requeuer::Pausing { time },
            },
        }
    }

    /// Computes [`Requeuer::wants`].
    pub fn action(&self) -> (action: RequeuerAction)
        ensures
            action == self.wants(),
    {
        match self {
            Requeuer::Listing => RequeuerAction::List { limit: BATCH_LIMIT },
            Requeuer::Requeueing { tasks, at, .. } => {
                if *at < tasks.len() {
                    RequeuerAction::Requeue {
                        task: tasks[*at].0.clone(),
                        revision: tasks[*at].1,
                    }
                } else {
                    RequeuerAction::Sleep { time: WorkTime { nanos: IDLE_PAUSE_NANOS } }
                }
            },
            Requeuer::Pausing { time } => RequeuerAction::Sleep { time: *time },
        }
    }
}

/// The requeuer puts back exactly the stalled tasks of a listing, in the
/// order of the listing: the task it turns to is stalled, and no stalled
/// task lies between the place it started from and the place it turns to.
pub proof fn lemma_next_stalled(tasks: Seq<(Task, Revision)>, from: int, now: Timestamp)
    requires
        0 <= from <= tasks.len(),
    ensures
        ({
            let at = next_stalled(tasks, from, now);
            &&& from <= at <= tasks.len()
            &&& at < tasks.len() ==> stalled(tasks[at].0, now)
            &&& forall|i: int| from <= i < at ==> !stalled((#[trigger] tasks[i]).0, now)
        }),
    decreases tasks.len() - from,
{
    if from < tasks.len() && !stalled(tasks[from].0, now) {
        lemma_next_stalled(tasks, from + 1, now);
    }
}

} // verus!
