use basti::kv::Revision;
use basti::name::WorkerName;
use basti::task::{PriorityKey, Task, TaskId, TaskKey, TaskPriority, TaskState, TaskValue};
use basti::time::{Timestamp, WorkTime};
use basti::worker::{
    is_stalled, work_share, Executor, ExecutorAction, ExecutorEvent, Finder, FinderAction,
    FinderEvent, Requeuer, RequeuerAction, RequeuerEvent, BATCH_LIMIT, ERROR_PAUSE_NANOS,
    FEEDBACK_INTERVAL_NANOS, IDLE_PAUSE_NANOS, WORK_TIMEOUT_NANOS,
};

fn id(n: u8) -> TaskId {
    TaskId([n; 16])
}

fn at(secs: i64) -> Timestamp {
    Timestamp { secs, nanos: 0 }
}

fn task(n: u8, state: TaskState, remaining_ms: u64, updated: i64) -> Task {
    let mut value = TaskValue::new_at(WorkTime::from_secs(100), TaskPriority(10), at(0));
    value.remaining = WorkTime::from_millis(remaining_ms);
    value.updated_at = at(updated);
    if state == TaskState::Running {
        value.assignee = Some(WorkerName::from_str("node-a").unwrap());
    }
    Task { key: TaskKey::new(state, id(n)), value }
}

fn idle_pause() -> WorkTime {
    WorkTime { nanos: IDLE_PAUSE_NANOS }
}

fn error_pause() -> WorkTime {
    WorkTime { nanos: ERROR_PAUSE_NANOS }
}

#[test]
fn timing_constants() {
    assert_eq!(FEEDBACK_INTERVAL_NANOS, 5_000_000_000);
    assert_eq!(WORK_TIMEOUT_NANOS, 10_000_000_000);
    assert_eq!(IDLE_PAUSE_NANOS, 500_000_000);
    assert_eq!(ERROR_PAUSE_NANOS, 5_000_000_000);
    assert_eq!(BATCH_LIMIT, 10);
    assert!((FEEDBACK_INTERVAL_NANOS as i128) < WORK_TIMEOUT_NANOS);
}

#[test]
fn share_is_remaining_capped_at_feedback_interval() {
    assert_eq!(work_share(WorkTime::zero()), WorkTime::zero());
    assert_eq!(work_share(WorkTime::from_millis(1)), WorkTime::from_millis(1));
    assert_eq!(work_share(WorkTime::from_millis(4999)), WorkTime::from_millis(4999));
    assert_eq!(work_share(WorkTime::from_secs(5)), WorkTime::from_secs(5));
    assert_eq!(work_share(WorkTime::from_millis(5001)), WorkTime::from_secs(5));
    assert_eq!(work_share(WorkTime::from_secs(60)), WorkTime::from_secs(5));
    assert_eq!(work_share(WorkTime { nanos: u128::MAX }), WorkTime::from_secs(5));
}

#[test]
fn stalled_after_ten_seconds() {
    let t = task(1, TaskState::Running, 1000, 100);
    assert!(!is_stalled(&t, &at(100)));
    assert!(!is_stalled(&t, &at(109)));
    assert!(!is_stalled(&t, &Timestamp { secs: 109, nanos: 999_999_999 }));
    assert!(is_stalled(&t, &at(110)));
    assert!(is_stalled(&t, &at(500)));
    // A clock that runs behind the stamp stalls nothing.
    assert!(!is_stalled(&t, &at(50)));
}

#[test]
fn executor_works_in_shares_and_finishes() {
    let mut e = Executor::start();
    assert_eq!(e.action(), ExecutorAction::RequestWork);
    e = e.step(ExecutorEvent::Requested);
    assert_eq!(e.action(), ExecutorAction::AwaitWork);
    let t = task(1, TaskState::Running, 7000, 100);
    e = e.step(ExecutorEvent::Work { task: t.clone(), revision: Revision(3) });
    assert_eq!(e.action(), ExecutorAction::Sleep { time: WorkTime::from_secs(5) });
    e = e.step(ExecutorEvent::Woke);
    assert_eq!(
        e.action(),
        ExecutorAction::Progress {
            task: t.clone(),
            revision: Revision(3),
            share: WorkTime::from_secs(5)
        }
    );
    let t2 = task(1, TaskState::Running, 2000, 105);
    e = e.step(ExecutorEvent::Progressed { update: Some((t2.clone(), Revision(4))) });
    assert_eq!(e.action(), ExecutorAction::Sleep { time: WorkTime::from_secs(2) });
    e = e.step(ExecutorEvent::Woke);
    assert_eq!(
        e.action(),
        ExecutorAction::Progress { task: t2, revision: Revision(4), share: WorkTime::from_secs(2) }
    );
    let t3 = task(1, TaskState::Running, 0, 107);
    e = e.step(ExecutorEvent::Progressed { update: Some((t3.clone(), Revision(5))) });
    assert_eq!(e.action(), ExecutorAction::Finish { key: t3.key, revision: Revision(5) });
    e = e.step(ExecutorEvent::Finished { removed: true });
    assert_eq!(e, Executor::Requesting);
}

#[test]
fn executor_gives_up_a_stolen_task() {
    let t = task(1, TaskState::Running, 7000, 100);
    let recording = Executor::take_up(t.clone(), Revision(3)).step(ExecutorEvent::Woke);
    assert_eq!(recording.step(ExecutorEvent::Progressed { update: None }), Executor::Requesting);
    let finishing = Executor::take_up(task(1, TaskState::Running, 0, 100), Revision(3));
    assert_eq!(finishing.step(ExecutorEvent::Finished { removed: false }), Executor::Requesting);
}

#[test]
fn executor_pauses_after_failure() {
    let t = task(1, TaskState::Running, 7000, 100);
    let recording = Executor::take_up(t, Revision(3)).step(ExecutorEvent::Woke);
    let paused = recording.step(ExecutorEvent::Failed);
    assert_eq!(paused, Executor::Pausing);
    assert_eq!(paused.action(), ExecutorAction::Sleep { time: error_pause() });
    assert_eq!(paused.step(ExecutorEvent::Woke), Executor::Requesting);
    let finishing = Executor::take_up(task(1, TaskState::Running, 0, 100), Revision(3));
    assert_eq!(finishing.step(ExecutorEvent::Failed), Executor::Pausing);
}

#[test]
fn executor_ignores_events_it_does_not_wait_for() {
    assert_eq!(Executor::Requesting.step(ExecutorEvent::Woke), Executor::Requesting);
    assert_eq!(Executor::Requesting.step(ExecutorEvent::Failed), Executor::Requesting);
    assert_eq!(Executor::Waiting.step(ExecutorEvent::Requested), Executor::Waiting);
    assert_eq!(Executor::Pausing.step(ExecutorEvent::Failed), Executor::Pausing);
    let t = task(1, TaskState::Running, 7000, 100);
    let working = Executor::take_up(t.clone(), Revision(3));
    assert_eq!(
        working.step(ExecutorEvent::Finished { removed: true }),
        Executor::take_up(t, Revision(3))
    );
}

fn entries() -> Vec<PriorityKey> {
    vec![
        PriorityKey::new(TaskPriority(1), id(1)),
        PriorityKey::new(TaskPriority(2), id(2)),
        PriorityKey::new(TaskPriority(3), id(3)),
    ]
}

#[test]
fn finder_waits_for_demand() {
    let f = Finder::start();
    assert_eq!(f, Finder::Idle);
    assert_eq!(f.action(), FinderAction::AwaitDemand);
    assert_eq!(Finder::Idle.step(FinderEvent::Woke), Finder::Idle);
    assert_eq!(Finder::Idle.step(FinderEvent::Failed), Finder::Idle);
    let listing = Finder::Idle.step(FinderEvent::Demand);
    assert_eq!(listing.action(), FinderAction::List { limit: 10 });
}

#[test]
fn finder_walks_the_feed_in_order() {
    let mut f = Finder::Listing.step(FinderEvent::Listed { entries: entries() });
    assert_eq!(f.action(), FinderAction::Find { id: id(1) });
    // Not found: on to the next.
    f = f.step(FinderEvent::Found { row: None });
    assert_eq!(f.action(), FinderAction::Find { id: id(2) });
    // Found, but running: skipped.
    let running = task(2, TaskState::Running, 1000, 0);
    f = f.step(FinderEvent::Found { row: Some((running, Revision(4))) });
    assert_eq!(f.action(), FinderAction::Find { id: id(3) });
    // Found queued: an attempt to take it.
    let queued = task(3, TaskState::Queued, 1000, 0);
    f = f.step(FinderEvent::Found { row: Some((queued.clone(), Revision(5))) });
    assert_eq!(f.action(), FinderAction::Acquire { task: queued, revision: Revision(5) });
    let taken = task(3, TaskState::Running, 1000, 1);
    f = f.step(FinderEvent::Acquired { update: Some((taken.clone(), Revision(6))) });
    assert_eq!(f.action(), FinderAction::Deliver { task: taken, revision: Revision(6) });
    f = f.step(FinderEvent::Delivered);
    assert_eq!(f, Finder::Idle);
}

#[test]
fn finder_pauses_when_the_feed_gives_nothing() {
    let empty = Finder::Listing.step(FinderEvent::Listed { entries: vec![] });
    assert_eq!(empty, Finder::Pausing { time: idle_pause() });
    assert_eq!(empty.action(), FinderAction::Sleep { time: idle_pause() });
    // After the pause the finder lists again, asking for no new demand.
    assert_eq!(empty.step(FinderEvent::Woke), Finder::Listing);

    let one = vec![PriorityKey::new(TaskPriority(1), id(1))];
    let mut f = Finder::Listing.step(FinderEvent::Listed { entries: one.clone() });
    f = f.step(FinderEvent::Found { row: None });
    assert_eq!(f, Finder::Pausing { time: idle_pause() });

    // A lost attempt on the last entry ends the round as well.
    let queued = task(1, TaskState::Queued, 1000, 0);
    let mut f = Finder::Listing.step(FinderEvent::Listed { entries: one });
    f = f.step(FinderEvent::Found { row: Some((queued, Revision(2))) });
    f = f.step(FinderEvent::Acquired { update: None });
    assert_eq!(f, Finder::Pausing { time: idle_pause() });
}

#[test]
fn finder_passes_over_an_unreadable_row() {
    let mut f = Finder::Listing.step(FinderEvent::Listed { entries: entries() });
    f = f.step(FinderEvent::Unreadable);
    assert_eq!(f.action(), FinderAction::Find { id: id(2) });
    f = f.step(FinderEvent::Unreadable).step(FinderEvent::Unreadable);
    assert_eq!(f, Finder::Pausing { time: idle_pause() });
    assert_eq!(Finder::Listing.step(FinderEvent::Unreadable), Finder::Listing);
}

#[test]
fn finder_moves_on_after_a_lost_attempt() {
    let queued = task(1, TaskState::Queued, 1000, 0);
    let mut f = Finder::Listing.step(FinderEvent::Listed { entries: entries() });
    f = f.step(FinderEvent::Found { row: Some((queued, Revision(2))) });
    f = f.step(FinderEvent::Acquired { update: None });
    assert_eq!(f.action(), FinderAction::Find { id: id(2) });
}

#[test]
fn finder_backs_off_after_failure() {
    let long = Finder::Pausing { time: error_pause() };
    assert_eq!(Finder::Listing.step(FinderEvent::Failed), long);
    let looking = Finder::Listing.step(FinderEvent::Listed { entries: entries() });
    assert_eq!(looking.step(FinderEvent::Failed), long);
    let queued = task(1, TaskState::Queued, 1000, 0);
    let taking = Finder::Listing
        .step(FinderEvent::Listed { entries: entries() })
        .step(FinderEvent::Found { row: Some((queued, Revision(2))) });
    assert_eq!(taking.step(FinderEvent::Failed), long);
    assert_eq!(long.action(), FinderAction::Sleep { time: error_pause() });
    assert_eq!(long.step(FinderEvent::Woke), Finder::Listing);
}

#[test]
fn finder_with_a_place_beyond_the_entries() {
    let lost = Finder::Looking { entries: entries(), at: 3 };
    assert_eq!(lost.action(), FinderAction::Sleep { time: idle_pause() });
    assert_eq!(lost.step(FinderEvent::Found { row: None }), Finder::Pausing { time: idle_pause() });
}

#[test]
fn requeuer_puts_back_stalled_tasks_only() {
    let tasks = vec![
        (task(1, TaskState::Running, 1000, 95), Revision(1)),
        (task(2, TaskState::Running, 1000, 89), Revision(2)),
        (task(3, TaskState::Running, 1000, 90), Revision(3)),
        (task(4, TaskState::Running, 1000, 99), Revision(4)),
        (task(5, TaskState::Running, 1000, 0), Revision(5)),
    ];
    let mut r = Requeuer::start();
    assert_eq!(r.action(), RequeuerAction::List { limit: 10 });
    r = r.step(RequeuerEvent::Listed { tasks: tasks.clone(), now: at(100) });
    assert_eq!(
        r.action(),
        RequeuerAction::Requeue { task: tasks[1].0.clone(), revision: Revision(2) }
    );
    r = r.step(RequeuerEvent::Requeued);
    assert_eq!(
        r.action(),
        RequeuerAction::Requeue { task: tasks[2].0.clone(), revision: Revision(3) }
    );
    r = r.step(RequeuerEvent::Requeued);
    assert_eq!(
        r.action(),
        RequeuerAction::Requeue { task: tasks[4].0.clone(), revision: Revision(5) }
    );
    r = r.step(RequeuerEvent::Requeued);
    assert_eq!(r, Requeuer::Pausing { time: idle_pause() });
    assert_eq!(r.step(RequeuerEvent::Woke), Requeuer::Listing);
}

#[test]
fn requeuer_pauses_when_nothing_is_stalled() {
    let fresh = vec![(task(1, TaskState::Running, 1000, 95), Revision(1))];
    let r = Requeuer::Listing.step(RequeuerEvent::Listed { tasks: fresh, now: at(100) });
    assert_eq!(r, Requeuer::Pausing { time: idle_pause() });
    let r = Requeuer::Listing.step(RequeuerEvent::Listed { tasks: vec![], now: at(100) });
    assert_eq!(r.action(), RequeuerAction::Sleep { time: idle_pause() });
}

#[test]
fn requeuer_backs_off_after_failure() {
    let long = Requeuer::Pausing { time: error_pause() };
    assert_eq!(Requeuer::Listing.step(RequeuerEvent::Failed), long);
    let stalled = vec![(task(1, TaskState::Running, 1000, 0), Revision(1))];
    let r = Requeuer::Listing.step(RequeuerEvent::Listed { tasks: stalled, now: at(100) });
    assert_eq!(r.step(RequeuerEvent::Failed), long);
    assert_eq!(long.step(RequeuerEvent::Woke), Requeuer::Listing);
    assert_eq!(Requeuer::Listing.step(RequeuerEvent::Woke), Requeuer::Listing);
}
