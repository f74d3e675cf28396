use std::collections::BTreeMap;

use basti::api::{
    cancel_task_endpoint, create_task_endpoint, find_task_endpoint, list_tasks_endpoint,
    ApiErrorKind, ListTasksParams,
};
use basti::kv::{KeyValue, RangeRequest, Revision, Txn, TxnOp, TxnOpResponse, TxnResponse};
use basti::name::WorkerName;
use basti::ops::{
    acquire_task_at, acquire_txn, cancel_txn, create_txn, find_result, find_txn, finish_result,
    finish_txn, list_priorities_request, list_priorities_result, list_tasks_request,
    list_tasks_result, progress_task_at, progress_txn, requeue_task_at, requeue_txn,
    update_result, OpsError,
};
use basti::task::{PriorityKey, Task, TaskId, TaskKey, TaskPriority, TaskState, TaskValue};
use basti::time::{Timestamp, WorkTime};
use basti::worker::{
    Executor, ExecutorAction, ExecutorEvent, Finder, FinderAction, FinderEvent, Requeuer,
    RequeuerAction, RequeuerEvent,
};

/// A store in memory that applies transactions as the real one does.
struct MemStore {
    rows: BTreeMap<Vec<u8>, (Vec<u8>, i64)>,
    revision: i64,
}

impl MemStore {
    fn new() -> Self {
        MemStore { rows: BTreeMap::new(), revision: 1 }
    }

    fn read(&self, key: &[u8]) -> Vec<KeyValue> {
        match self.rows.get(key) {
            Some((value, rev)) => {
                vec![KeyValue { key: key.to_vec(), value: value.clone(), mod_revision: *rev }]
            }
            None => vec![],
        }
    }

    fn txn(&mut self, txn: &Txn) -> TxnResponse {
        let holds = txn.compares.iter().all(|c| {
            self.rows.get(&c.key).map(|r| r.1).unwrap_or(0) == c.mod_revision
        });
        if !holds {
            return TxnResponse { succeeded: false, op_responses: vec![] };
        }
        let writes = txn.operations.iter().any(|op| !matches!(op, TxnOp::Get { .. }));
        let at = self.revision + 1;
        let mut op_responses = vec![];
        for op in &txn.operations {
            match op {
                TxnOp::Put { key, value } => {
                    self.rows.insert(key.clone(), (value.clone(), at));
                    op_responses.push(TxnOpResponse::Put);
                }
                TxnOp::Delete { key } => {
                    self.rows.remove(key);
                    op_responses.push(TxnOpResponse::Delete);
                }
                TxnOp::Get { key } => {
                    op_responses.push(TxnOpResponse::Get { kvs: self.read(key) });
                }
            }
        }
        if writes {
            self.revision = at;
        }
        TxnResponse { succeeded: true, op_responses }
    }

    fn range(&self, request: &RangeRequest) -> Vec<KeyValue> {
        let mut kvs: Vec<KeyValue> = self
            .rows
            .iter()
            .filter(|(key, _)| key.starts_with(&request.prefix))
            .map(|(key, (value, rev))| KeyValue {
                key: key.clone(),
                value: value.clone(),
                mod_revision: *rev,
            })
            .collect();
        if request.limit > 0 {
            kvs.truncate(request.limit as usize);
        }
        kvs
    }

    /// The invariants of the data model, checked on the keys.
    fn assert_consistent(&self) {
        let mut queued = vec![];
        let mut running = vec![];
        let mut listed = vec![];
        for key in self.rows.keys() {
            if let Ok(k) = TaskKey::decode(key) {
                match k.state {
                    TaskState::Queued => queued.push(k.id),
                    TaskState::Running => running.push(k.id),
                }
            } else if let Ok(p) = PriorityKey::decode(key) {
                listed.push(p.id);
            } else {
                panic!("foreign key in the store");
            }
        }
        for id in &queued {
            assert!(!running.contains(id), "task stored under both states");
            assert_eq!(listed.iter().filter(|l| *l == id).count(), 1, "queued but not listed once");
        }
        for id in &listed {
            assert!(queued.contains(id), "listed but not queued");
        }
        for (_, rev) in self.rows.values() {
            assert!(0 < *rev && *rev <= self.revision);
        }
    }
}

fn put_u128(out: &mut Vec<u8>, n: u128) {
    out.extend_from_slice(&n.to_le_bytes());
}

fn put_time(out: &mut Vec<u8>, t: &Timestamp) {
    out.extend_from_slice(&t.secs.to_le_bytes());
    out.extend_from_slice(&t.nanos.to_le_bytes());
}

/// A stand-in for the caller's serializer.
fn encode(task: &Task) -> Vec<u8> {
    let v = &task.value;
    let mut out = vec![];
    let name = v.assignee.as_ref().map(|n| n.inner().clone()).unwrap_or_default();
    out.push(name.len() as u8);
    out.extend_from_slice(name.as_bytes());
    put_u128(&mut out, v.remaining.nanos);
    put_time(&mut out, &v.updated_at);
    out.push(v.priority.0);
    put_time(&mut out, &v.created_at);
    put_u128(&mut out, v.duration.nanos);
    out
}

fn take<'a>(bytes: &mut &'a [u8], n: usize) -> &'a [u8] {
    let (head, rest) = bytes.split_at(n);
    *bytes = rest;
    head
}

fn take_time(bytes: &mut &[u8]) -> Timestamp {
    let secs = i64::from_le_bytes(take(bytes, 8).try_into().unwrap());
    let nanos = u32::from_le_bytes(take(bytes, 4).try_into().unwrap());
    Timestamp { secs, nanos }
}

fn decode(mut bytes: &[u8]) -> TaskValue {
    let len = take(&mut bytes, 1)[0] as usize;
    let name = std::str::from_utf8(take(&mut bytes, len)).unwrap().to_string();
    let assignee = if len == 0 { None } else { Some(WorkerName::from_str(&name).unwrap()) };
    let remaining = WorkTime { nanos: u128::from_le_bytes(take(&mut bytes, 16).try_into().unwrap()) };
    let updated_at = take_time(&mut bytes);
    let priority = TaskPriority(take(&mut bytes, 1)[0]);
    let created_at = take_time(&mut bytes);
    let duration = WorkTime { nanos: u128::from_le_bytes(take(&mut bytes, 16).try_into().unwrap()) };
    TaskValue { assignee, remaining, updated_at, priority, created_at, duration }
}

/// The operations as a node runs them against the store.
struct Node {
    name: WorkerName,
}

fn node(name: &str) -> Node {
    Node { name: WorkerName::from_str(name).unwrap() }
}

fn at(secs: i64) -> Timestamp {
    Timestamp { secs, nanos: 0 }
}

fn submit(store: &mut MemStore, id: TaskId, secs: u64, priority: u8, now: Timestamp) -> Task {
    let task = Task {
        key: TaskKey::new(TaskState::Queued, id),
        value: TaskValue::new_at(WorkTime::from_secs(secs), TaskPriority(priority), now),
    };
    let response = store.txn(&create_txn(&task, encode(&task)));
    assert!(response.succeeded);
    task
}

fn find(
    store: &mut MemStore,
    id: TaskId,
    states: &[TaskState],
) -> Result<Option<(Task, Revision)>, OpsError> {
    let response = store.txn(&find_txn(&id, states));
    Ok(find_result(&response)?.map(|row| {
        let value = decode(&row.value);
        row.into_task(value)
    }))
}

fn list_tasks(
    store: &MemStore,
    state: Option<TaskState>,
    limit: i64,
) -> Result<Vec<(Task, Revision)>, OpsError> {
    let rows = list_tasks_result(store.range(&list_tasks_request(state, limit)))?;
    Ok(rows
        .into_iter()
        .map(|row| {
            let value = decode(&row.value);
            row.into_task(value)
        })
        .collect())
}

fn list_priorities(store: &MemStore, limit: i64) -> Result<Vec<PriorityKey>, OpsError> {
    list_priorities_result(&store.range(&list_priorities_request(limit)))
}

impl Node {
    fn acquire(
        &self,
        store: &mut MemStore,
        task: Task,
        revision: Revision,
        now: Timestamp,
    ) -> Option<(Task, Revision)> {
        let initial = task.key;
        let next = acquire_task_at(task, self.name.clone(), now);
        let response = store.txn(&acquire_txn(&initial, &next, revision, encode(&next)));
        update_result(&response).unwrap().map(|revision| (next, revision))
    }
}

fn progress(
    store: &mut MemStore,
    task: Task,
    revision: Revision,
    share: WorkTime,
    now: Timestamp,
) -> Option<(Task, Revision)> {
    let next = progress_task_at(task, share, now);
    let response = store.txn(&progress_txn(&next, revision, encode(&next)));
    update_result(&response).unwrap().map(|revision| (next, revision))
}

fn requeue(
    store: &mut MemStore,
    task: Task,
    revision: Revision,
    now: Timestamp,
) -> Option<(Task, Revision)> {
    let initial = task.key;
    let next = requeue_task_at(task, now);
    let response = store.txn(&requeue_txn(&initial, &next, revision, encode(&next)));
    update_result(&response).unwrap().map(|revision| (next, revision))
}

fn finish(store: &mut MemStore, key: &TaskKey, revision: Revision) -> Option<()> {
    finish_result(&store.txn(&finish_txn(key, revision)))
}

fn cancel(store: &mut MemStore, id: TaskId) -> Result<Option<Task>, OpsError> {
    let Some((task, _)) = find(store, id, &TaskState::variants())? else {
        return Ok(None);
    };
    store.txn(&cancel_txn(&task));
    Ok(Some(task))
}

/// Runs the finder of `node` until it has a task to hand over. `None` where
/// a round ends without one.
fn find_work(node: &Node, store: &mut MemStore, now: Timestamp) -> Option<(Task, Revision)> {
    let mut finder = Finder::start().step(FinderEvent::Demand);
    loop {
        let event = match finder.action() {
            FinderAction::AwaitDemand => panic!("no task was handed over"),
            FinderAction::List { limit } => {
                assert_eq!(limit, 10);
                FinderEvent::Listed { entries: list_priorities(store, limit).unwrap() }
            }
            FinderAction::Find { id } => {
                FinderEvent::Found { row: find(store, id, &[TaskState::Queued]).unwrap() }
            }
            FinderAction::Acquire { task, revision } => {
                FinderEvent::Acquired { update: node.acquire(store, task, revision, now) }
            }
            FinderAction::Deliver { task, revision } => return Some((task, revision)),
            FinderAction::Sleep { .. } => return None,
        };
        finder = finder.step(event);
    }
}

/// Runs an executor on one task until it asks for work again. Returns the
/// work time it slept for and the number of stores it made.
fn execute(
    store: &mut MemStore,
    task: Task,
    revision: Revision,
    clock: &mut i64,
    stop_after: Option<u32>,
) -> (u128, u32) {
    let mut executor = Executor::start()
        .step(ExecutorEvent::Requested)
        .step(ExecutorEvent::Work { task, revision });
    let mut slept = 0u128;
    let mut calls = 0u32;
    loop {
        if stop_after == Some(calls) {
            return (slept, calls);
        }
        let event = match executor.action() {
            ExecutorAction::RequestWork => return (slept, calls),
            ExecutorAction::AwaitWork => panic!("executor waits while it holds a task"),
            ExecutorAction::Sleep { time } => {
                slept += time.nanos;
                *clock += (time.nanos / 1_000_000_000) as i64;
                ExecutorEvent::Woke
            }
            ExecutorAction::Progress { task, revision, share } => {
                calls += 1;
                ExecutorEvent::Progressed {
                    update: progress(store, task, revision, share, at(*clock)),
                }
            }
            ExecutorAction::Finish { key, revision } => {
                calls += 1;
                ExecutorEvent::Finished { removed: finish(store, &key, revision).is_some() }
            }
        };
        executor = executor.step(event);
        store.assert_consistent();
    }
}

/// One round of the requeuer; returns the identifiers it put back.
fn requeue_round(store: &mut MemStore, now: Timestamp) -> Vec<TaskId> {
    let mut requeuer = Requeuer::start();
    let mut put_back = vec![];
    loop {
        let event = match requeuer.action() {
            RequeuerAction::List { limit } => RequeuerEvent::Listed {
                tasks: list_tasks(store, Some(TaskState::Running), limit).unwrap(),
                now,
            },
            RequeuerAction::Requeue { task, revision } => {
                let id = task.key.id;
                if requeue(store, task, revision, now).is_some() {
                    put_back.push(id);
                }
                RequeuerEvent::Requeued
            }
            RequeuerAction::Sleep { time } => {
                assert_eq!(time, WorkTime::from_millis(500));
                return put_back;
            }
        };
        requeuer = requeuer.step(event);
    }
}

fn id(n: u8) -> TaskId {
    TaskId([n; 16])
}

#[test]
fn stand_in_codec_round_trip() {
    let mut task = Task {
        key: TaskKey::new(TaskState::Queued, id(1)),
        value: TaskValue::new_at(WorkTime::from_millis(1234), TaskPriority(9), at(77)),
    };
    assert_eq!(decode(&encode(&task)), task.value);
    task = acquire_task_at(task, WorkerName::from_str("node-a").unwrap(), at(78));
    assert_eq!(decode(&encode(&task)), task.value);
}

#[test]
fn happy_path() {
    let mut store = MemStore::new();
    let mut clock = 1000;
    let submitted = create_task_endpoint(Ok(submit(&mut store, id(1), 2, 10, at(clock))));
    assert_eq!(submitted.as_ref().unwrap().0, 201);
    store.assert_consistent();
    assert_eq!(list_tasks(&store, None, 50).unwrap().len(), 1);

    let worker = node("node-a");
    let (task, revision) = find_work(&worker, &mut store, at(clock)).unwrap();
    assert_eq!(task.key.state, TaskState::Running);
    assert_eq!(task.value.assignee, Some(worker.name.clone()));
    store.assert_consistent();

    let started = clock;
    let (slept, calls) = execute(&mut store, task, revision, &mut clock, None);
    assert_eq!(slept, 2_000_000_000);
    assert_eq!(calls, 2);
    assert!(clock - started <= 3);

    assert_eq!(list_tasks(&store, None, 50).unwrap(), vec![]);
    assert!(store.rows.is_empty());
    let shown = find_task_endpoint(&id(1), find(&mut store, id(1), &TaskState::variants()));
    let error = shown.unwrap_err();
    assert_eq!(error.kind, ApiErrorKind::NotFound);
    assert_eq!(error.kind.status_code(), 404);
}

#[test]
fn priority_order() {
    let mut store = MemStore::new();
    submit(&mut store, id(0xa), 1, 20, at(1000));
    submit(&mut store, id(0xb), 1, 5, at(1001));
    let worker = node("node-a");
    let (first, _) = find_work(&worker, &mut store, at(1002)).unwrap();
    assert_eq!(first.key.id, id(0xb));
    store.assert_consistent();
    let (second, _) = find_work(&worker, &mut store, at(1003)).unwrap();
    assert_eq!(second.key.id, id(0xa));
    store.assert_consistent();
    assert_eq!(find_work(&worker, &mut store, at(1004)), None);
}

#[test]
fn priority_zero_precedes_priority_one() {
    let mut store = MemStore::new();
    submit(&mut store, id(0x00), 1, 1, at(1000));
    submit(&mut store, id(0xff), 1, 0, at(1000));
    let feed = list_priorities(&store, 10).unwrap();
    assert_eq!(
        feed,
        vec![
            PriorityKey::new(TaskPriority(0), id(0xff)),
            PriorityKey::new(TaskPriority(1), id(0x00)),
        ]
    );
}

#[test]
fn worker_crash() {
    let mut store = MemStore::new();
    let mut clock = 1000;
    submit(&mut store, id(1), 60, 10, at(clock));

    let a = node("node-a");
    let (task, revision) = find_work(&a, &mut store, at(clock)).unwrap();
    // A works for one feedback interval, records it, starts the next, and dies.
    let (slept_a, _) = execute(&mut store, task, revision, &mut clock, Some(1));
    assert_eq!(slept_a, 5_000_000_000);
    let last_update = clock;
    clock += 1;

    // While the task was updated less than ten seconds ago, nobody touches it.
    assert_eq!(requeue_round(&mut store, at(last_update + 9)), vec![]);
    assert_eq!(find_work(&node("node-b"), &mut store, at(last_update + 9)), None);

    clock = last_update + 10;
    assert_eq!(requeue_round(&mut store, at(clock)), vec![id(1)]);
    store.assert_consistent();
    let (found, _) = find(&mut store, id(1), &TaskState::variants()).unwrap().unwrap();
    assert_eq!(found.key.state, TaskState::Queued);
    assert_eq!(found.value.assignee, None);
    assert_eq!(found.value.remaining, WorkTime::from_secs(55));

    let b = node("node-b");
    let (task, revision) = find_work(&b, &mut store, at(clock)).unwrap();
    assert_eq!(task.value.assignee, Some(b.name.clone()));
    assert_eq!(task.value.remaining, WorkTime::from_secs(55));
    let (slept_b, _) = execute(&mut store, task, revision, &mut clock, None);
    assert_eq!(slept_b, 55_000_000_000);
    assert!(slept_a + slept_b >= 60_000_000_000);
    assert!(store.rows.is_empty());
}

#[test]
fn cancel_mid_run() {
    let mut store = MemStore::new();
    let mut clock = 1000;
    submit(&mut store, id(1), 30, 10, at(clock));
    let worker = node("node-a");
    let (task, revision) = find_work(&worker, &mut store, at(clock)).unwrap();

    // The worker records five seconds and is two seconds into the next share.
    let mut executor = Executor::take_up(task, revision);
    executor = executor.step(ExecutorEvent::Woke);
    let ExecutorAction::Progress { task, revision, share } = executor.action() else {
        panic!("the executor should record its share");
    };
    clock += 5;
    let update = progress(&mut store, task, revision, share, at(clock));
    assert!(update.is_some());
    executor = executor.step(ExecutorEvent::Progressed { update });
    clock += 2;

    let answer = cancel_task_endpoint(&id(1), cancel(&mut store, id(1)));
    let (status, cancelled) = answer.unwrap();
    assert_eq!(status, 200);
    assert_eq!(cancelled.key.state, TaskState::Running);
    assert_eq!(cancelled.value.remaining, WorkTime::from_secs(25));
    assert!(store.rows.is_empty());

    // The worker finishes its share and finds the task gone.
    executor = executor.step(ExecutorEvent::Woke);
    let ExecutorAction::Progress { task, revision, share } = executor.action() else {
        panic!("the executor should record its share");
    };
    clock += 3;
    let update = progress(&mut store, task, revision, share, at(clock));
    assert_eq!(update, None);
    executor = executor.step(ExecutorEvent::Progressed { update });
    assert_eq!(executor, Executor::Requesting);
    assert!(store.rows.is_empty());
}

#[test]
fn duplicate_acquisition_race() {
    let mut store = MemStore::new();
    submit(&mut store, id(1), 10, 10, at(1000));
    let (task, revision) = find(&mut store, id(1), &[TaskState::Queued]).unwrap().unwrap();
    let a = node("node-a").acquire(&mut store, task.clone(), revision, at(1001));
    let b = node("node-b").acquire(&mut store, task, revision, at(1001));
    assert!(a.is_some());
    assert_eq!(b, None);
    assert_eq!(list_priorities(&store, 10).unwrap(), vec![]);
    store.assert_consistent();
    let (held, _) = find(&mut store, id(1), &TaskState::variants()).unwrap().unwrap();
    assert_eq!(held.value.assignee, Some(WorkerName::from_str("node-a").unwrap()));
}

#[test]
fn only_one_of_many_attempts_wins() {
    for winner in 0..5usize {
        let mut store = MemStore::new();
        submit(&mut store, id(1), 10, 10, at(1000));
        let (task, revision) = find(&mut store, id(1), &[TaskState::Queued]).unwrap().unwrap();
        let names = ["n0", "n1", "n2", "n3", "n4"];
        let mut order: Vec<usize> = (0..5).collect();
        order.rotate_left(winner);
        let mut wins = vec![];
        for i in order {
            if node(names[i]).acquire(&mut store, task.clone(), revision, at(1001)).is_some() {
                wins.push(i);
            }
            store.assert_consistent();
        }
        assert_eq!(wins, vec![winner]);
    }
}

#[test]
fn progress_adds_up() {
    let mut store = MemStore::new();
    submit(&mut store, id(1), 17, 10, at(1000));
    let worker = node("node-a");
    let (mut task, mut revision) = find_work(&worker, &mut store, at(1000)).unwrap();
    let duration = task.value.duration;
    let mut done = 0u128;
    let mut clock = 1000;
    for millis in [5000u64, 1, 2999, 5000, 4000] {
        let share = WorkTime::from_millis(millis);
        clock += 1;
        let before = task.value.remaining;
        let (next, rev) = progress(&mut store, task, revision, share, at(clock)).unwrap();
        done += share.nanos;
        assert!(next.value.remaining < before);
        assert_eq!(next.value.remaining.nanos, before.nanos - share.nanos);
        assert_eq!(done, duration.nanos - next.value.remaining.nanos);
        assert!(rev.0 > revision.0);
        task = next;
        revision = rev;
        store.assert_consistent();
    }
    assert!(task.value.remaining.is_zero());
}

#[test]
fn finish_then_cancel_is_a_no_op() {
    let mut store = MemStore::new();
    submit(&mut store, id(1), 0, 10, at(1000));
    submit(&mut store, id(2), 5, 10, at(1000));
    let worker = node("node-a");
    let (task, revision) = find(&mut store, id(1), &[TaskState::Queued]).unwrap().unwrap();
    let (task, revision) = worker.acquire(&mut store, task, revision, at(1001)).unwrap();
    assert_eq!(finish(&mut store, &task.key, revision), Some(()));
    let rows = store.rows.clone();
    let revision_before = store.revision;
    assert_eq!(cancel(&mut store, id(1)), Ok(None));
    assert_eq!(store.rows, rows);
    assert_eq!(store.revision, revision_before);
    store.assert_consistent();
}

#[test]
fn cancel_defeats_later_updates() {
    let mut store = MemStore::new();
    submit(&mut store, id(1), 30, 10, at(1000));
    let worker = node("node-a");
    let (task, revision) = find_work(&worker, &mut store, at(1000)).unwrap();
    assert_eq!(cancel(&mut store, id(1)).unwrap().map(|t| t.key.id), Some(id(1)));
    assert_eq!(progress(&mut store, task.clone(), revision, WorkTime::from_secs(1), at(1001)), None);
    assert_eq!(progress(&mut store, task.clone(), revision, WorkTime::zero(), at(1001)), None);
    assert_eq!(finish(&mut store, &task.key, revision), None);
    assert_eq!(requeue(&mut store, task, revision, at(1002)), None);
    assert_eq!(cancel(&mut store, id(1)), Ok(None));
    assert!(store.rows.is_empty());
}

#[test]
fn cancel_of_a_queued_task_clears_the_feed() {
    let mut store = MemStore::new();
    submit(&mut store, id(1), 30, 7, at(1000));
    let cancelled = cancel(&mut store, id(1)).unwrap().unwrap();
    assert_eq!(cancelled.key.state, TaskState::Queued);
    assert!(store.rows.is_empty());
    assert_eq!(find_work(&node("node-a"), &mut store, at(1001)), None);
}

#[test]
fn zero_duration_task() {
    let mut store = MemStore::new();
    let mut clock = 1000;
    let task = submit(&mut store, id(1), 0, 10, at(clock));
    assert_eq!(task.key.state, TaskState::Queued);
    assert!(task.value.remaining.is_zero());
    let worker = node("node-a");

    // A finish right after the acquisition.
    let (task, revision) = find_work(&worker, &mut store, at(clock)).unwrap();
    let (slept, calls) = execute(&mut store, task, revision, &mut clock, None);
    assert_eq!(slept, 0);
    assert_eq!(calls, 1);
    assert_eq!(clock, 1000);
    assert!(store.rows.is_empty());

    // A progress of nothing is also in order.
    submit(&mut store, id(2), 0, 10, at(clock));
    let (task, revision) = find_work(&worker, &mut store, at(clock)).unwrap();
    let (task, revision) = progress(&mut store, task, revision, WorkTime::zero(), at(clock)).unwrap();
    assert!(task.value.remaining.is_zero());
    assert_eq!(finish(&mut store, &task.key, revision), Some(()));
    assert!(store.rows.is_empty());
}

#[test]
fn limit_one_lists_one() {
    let mut store = MemStore::new();
    assert_eq!(list_tasks(&store, None, 1).unwrap().len(), 0);
    for n in 1..=4 {
        submit(&mut store, id(n), 1, n, at(1000));
    }
    assert_eq!(list_tasks(&store, None, 1).unwrap().len(), 1);
    assert_eq!(list_tasks(&store, Some(TaskState::Queued), 1).unwrap().len(), 1);
    assert_eq!(list_tasks(&store, Some(TaskState::Running), 1).unwrap().len(), 0);
    assert_eq!(list_priorities(&store, 1).unwrap().len(), 1);
    assert_eq!(list_tasks(&store, None, 3).unwrap().len(), 3);
    let default = ListTasksParams { state: None, limit: None };
    assert_eq!(default.request().limit, 50);
    let listed = list_tasks_result(store.range(&default.request())).unwrap();
    assert_eq!(listed.len(), 4);
    let one = ListTasksParams { state: Some(TaskState::Queued), limit: Some(1) };
    assert_eq!(store.range(&one.request()).len(), 1);
    let answer = list_tasks_endpoint(list_tasks(&store, None, 2)).unwrap();
    assert_eq!(answer.0, 200);
    assert_eq!(answer.1.len(), 2);
}

#[test]
fn invariants_hold_under_random_operations() {
    let mut seed: u64 = 42;
    let mut next = move |bound: u64| {
        seed = seed.wrapping_mul(6364136223846793005).wrapping_add(1442695040888963407);
        (seed >> 33) % bound
    };
    let mut store = MemStore::new();
    let nodes = [node("a"), node("b"), node("c")];
    // What each node believes it holds: possibly stale.
    let mut held: Vec<(Task, Revision)> = vec![];
    let mut clock = 1000;
    let mut fresh = 0u8;
    for _ in 0..3000 {
        clock += next(4) as i64;
        match next(7) {
            0 => {
                if fresh < 250 {
                    fresh += 1;
                    submit(&mut store, id(fresh), next(20), next(4) as u8, at(clock));
                }
            }
            1 => {
                let worker = &nodes[next(3) as usize];
                if let Some(work) = find_work(worker, &mut store, at(clock)) {
                    held.push(work);
                }
            }
            2 => {
                if !held.is_empty() {
                    let i = next(held.len() as u64) as usize;
                    let (task, revision) = held.remove(i);
                    let share = basti::worker::work_share(task.value.remaining);
                    if let Some(update) = progress(&mut store, task, revision, share, at(clock)) {
                        held.push(update);
                    }
                }
            }
            3 => {
                if !held.is_empty() {
                    let i = next(held.len() as u64) as usize;
                    let (task, revision) = held.remove(i);
                    finish(&mut store, &task.key, revision);
                }
            }
            4 => {
                requeue_round(&mut store, at(clock));
            }
            5 => {
                if fresh > 0 {
                    let target = id(1 + next(fresh as u64) as u8);
                    cancel(&mut store, target).unwrap();
                }
            }
            _ => {
                // A node acts on a copy that went stale.
                if !held.is_empty() {
                    let i = next(held.len() as u64) as usize;
                    let (task, revision) = held[i].clone();
                    let stale = Revision(revision.0 - 1);
                    assert_eq!(progress(&mut store, task.clone(), stale, WorkTime::zero(), at(clock)), None);
                    assert_eq!(finish(&mut store, &task.key, stale), None);
                }
            }
        }
        store.assert_consistent();
    }
}
