//! The operations on tasks, each as the request it sends to the store and
//! the reading of the store's answer.
//!
//! An operation that changes a task is guarded by the revision at which the
//! task was read: the store applies it only if the row is still at that
//! revision. A guard that fails is no error; it means that another node
//! changed the task first, and the operation reports `None`.
//!
//! The bytes stored under a task key are made and read by the caller; the
//! functions here take them as given.

use vstd::prelude::*;

use crate::kv::{
    kvs_view, ops_view, Compare, CompareView, KeyValue, KeyValueView, OpResponseView, OpView,
    RangeRequest, RangeRequestView, Revision, SortOrder, Txn, TxnOp, TxnOpResponse, TxnResponse,
    TxnResponseView, TxnView,
};
use crate::name::WorkerName;
use crate::task::{
    parse_priority_key, parse_task_key, priority_key_bytes, state_byte, task_key_bytes, KeyError,
    PriorityKey, Task, TaskId, TaskKey, TaskState, TaskValue, PRIORITY_PREFIX, TASK_PREFIX,
};
use crate::time::{Timestamp, WorkTime};

verus! {

/// Rows handed out by a listing when the caller names no limit.
pub const DEFAULT_LIST_LIMIT: i64 = 50;

/// What can go wrong in an operation, a lost guard apart.
#[derive(Debug, PartialEq, Eq)]
pub enum OpsError {
    /// The store could not be reached or refused the request.
    Store(String),
    /// A task is stored under both states at once.
    Inconsistent,
    /// A stored key does not parse.
    Decode(KeyError),
    /// The stored form of a task could not be made or could not be read.
    Value(String),
    /// The answer to an update does not end in the read that was asked for.
    MissingRead,
    /// The read at the end of an update found no row.
    MissingRow,
}

/// A task row as it was read: the key parsed, the stored bytes as they are.
#[derive(Debug, PartialEq, Eq)]
pub struct TaskRow {
    pub key: TaskKey,
    pub value: Vec<u8>,
    pub revision: Revision,
}

/// A task row as it was read, in mathematical form.
pub struct TaskRowView {
    pub key: TaskKey,
    pub value: Seq<u8>,
    pub revision: int,
}

impl View for TaskRow {
    type V = TaskRowView;

    open spec fn view(&self) -> TaskRowView {
        TaskRowView { key: self.key, value: self.value@, revision: self.revision.0 as int }
    }
}

impl TaskRow {
    /// The task that the row holds, once its bytes were read as `value`.
    pub fn into_task(self, value: TaskValue) -> (r: (Task, Revision))
        ensures
            r.0 == (Task { key: self.key, value }),
            r.1 == self.revision,
    {
        (Task { key: self.key, value }, self.revision)
    }
}

/// The read of `key` as an operation.
fn get_op(key: Vec<u8>) -> (op: TxnOp)
    ensures
        op@ == (OpView::Get { key: key@ }),
{
    TxnOp::Get { key }
}

/// The removal of `key` as an operation.
fn delete_op(key: Vec<u8>) -> (op: TxnOp)
    ensures
        op@ == (OpView::Delete { key: key@ }),
{
    TxnOp::Delete { key }
}

/// The write of `value` under `key` as an operation.
fn put_op(key: Vec<u8>, value: Vec<u8>) -> (op: TxnOp)
    ensures
        op@ == (OpView::Put { key: key@, value: value@ }),
{
    TxnOp::Put { key, value }
}

/// Adds `op` to the end of `ops`.
fn push_op(ops: &mut Vec<TxnOp>, op: TxnOp)
    ensures
        ops_view(final(ops)@) == ops_view(old(ops)@).push(op@),
{
    ops.push(op);
    assert(ops_view(ops@) =~= ops_view(old(ops)@).push(op@));
}

/// The transaction that stores a new task: the task row and its index
/// entry, with no guard.
pub open spec fn create_plan(task: Task, value: Seq<u8>) -> TxnView {
    TxnView {
        compares: seq![],
        operations: seq![
            OpView::Put { key: task.key.encoding(), value },
            OpView::Put {
                key: priority_key_bytes(task.value.priority.0, task.key.id@),
                value: seq![],
            },
        ],
    }
}

/// Builds the transaction that stores `task`, whose stored form is `value`.
pub fn create_txn(task: &Task, value: Vec<u8>) -> (txn: Txn)
    ensures
        txn@ == create_plan(*task, value@),
{
    let mut operations: Vec<TxnOp> = Vec::new();
    assert(ops_view(operations@) =~= seq![]);
    push_op(&mut operations, put_op(task.key.encode(), value));
    let marker: Vec<u8> = Vec::new();
    assert(marker@ =~= seq![]);
    push_op(&mut operations, put_op(PriorityKey::from_task(task).encode(), marker));
    let txn = Txn { compares: Vec::new(), operations };
    assert(txn@.compares =~= seq![]);
    assert(txn@.operations =~= create_plan(*task, value@).operations);
    txn
}

/// The limit that a listing runs under: the caller's, or 50.
pub fn list_limit(limit: Option<i64>) -> (n: i64)
    ensures
        n == match limit {
            Some(n) => n,
            None => DEFAULT_LIST_LIMIT,
        },
{
    match limit {
        Some(n) => n,
        None => DEFAULT_LIST_LIMIT,
    }
}

/// The read that lists queued tasks in feed order: every index entry, by
/// key, smallest first, `limit` at most.
pub fn list_priorities_request(limit: i64) -> (request: RangeRequest)
    ensures
        request@ == (RangeRequestView {
            prefix: seq![PRIORITY_PREFIX],
            limit: limit as int,
            sort: SortOrder::KeyAscending,
        }),
{
    let mut prefix: Vec<u8> = Vec::new();
    prefix.push(PRIORITY_PREFIX);
    assert(prefix@ =~= seq![PRIORITY_PREFIX]);
    RangeRequest { prefix, limit, sort: SortOrder::KeyAscending }
}

/// The key prefix shared by the task rows of `state`, or by all task rows.
pub open spec fn task_prefix(state: Option<TaskState>) -> Seq<u8> {
    match state {
        None => seq![TASK_PREFIX],
        Some(state) => seq![TASK_PREFIX, state_byte(state)],
    }
}

/// The read that lists task rows, of one state or of both, `limit` at most,
/// in the order the store chooses.
pub fn list_tasks_request(state: Option<TaskState>, limit: i64) -> (request: RangeRequest)
    ensures
        request@ == (RangeRequestView {
            prefix: task_prefix(state),
            limit: limit as int,
            sort: SortOrder::Unsorted,
        }),
{
    let mut prefix: Vec<u8> = Vec::new();
    prefix.push(TASK_PREFIX);
    match state {
        None => {},
        Some(state) => {
            prefix.push(state.to_byte());
        },
    }
    assert(prefix@ =~= task_prefix(state));
    RangeRequest { prefix, limit, sort: SortOrder::Unsorted }
}

/// The index entries that the keys of `kvs` spell, in order; or the error of
/// the first key that spells none.
pub open spec fn parse_priorities(kvs: Seq<KeyValueView>) -> Result<Seq<PriorityKey>, OpsError>
    decreases kvs.len(),
{
    if kvs.len() == 0 {
        Ok(seq![])
    } else {
        match parse_priorities(kvs.drop_last()) {
            Err(e) => Err(e),
            Ok(front) => match parse_priority_key(kvs.last().key) {
                Err(e) => Err(OpsError::Decode(e)),
                Ok(key) => Ok(front.push(key)),
            },
        }
    }
}

/// Reads the answer to a listing of the index: one entry per row, in the
/// order of the rows. A key that does not parse fails the listing.
pub fn list_priorities_result(kvs: &Vec<KeyValue>) -> (r: Result<Vec<PriorityKey>, OpsError>)
    ensures
        match r {
            Ok(keys) => parse_priorities(kvs_view(kvs@)) == Ok::<Seq<PriorityKey>, OpsError>(keys@),
            Err(e) => parse_priorities(kvs_view(kvs@)) == Err::<Seq<PriorityKey>, OpsError>(e),
        },
        r matches Ok(keys) ==> keys@.len() == kvs@.len(),
{
    let mut keys: Vec<PriorityKey> = Vec::new();
    let mut i: usize = 0;
    assert(kvs_view(kvs@).take(0) =~= seq![]);
    while i < kvs.len()
        invariant
            0 <= i <= kvs.len(),
            keys@.len() == i,
            parse_priorities(kvs_view(kvs@).take(i as int)) == Ok::<Seq<PriorityKey>, OpsError>(
                keys@,
            ),
        decreases kvs.len() - i,
    {
        let ghost all = kvs_view(kvs@);
        proof {
            assert(all.take(i + 1).drop_last() =~= all.take(i as int));
            assert(all.take(i + 1).last() == kvs@[i as int]@);
        }
        match PriorityKey::decode(kvs[i].key.as_slice()) {
            Ok(key) => {
                keys.push(key);
            },
            Err(e) => {
                proof {
                    lemma_parse_priorities_fails(all, i + 1);
                }
                return Err(OpsError::Decode(e));
            },
        }
        i += 1;
    }
    assert(kvs_view(kvs@).take(i as int) =~= kvs_view(kvs@));
    Ok(keys)
}

/// A listing that fails on its first `n` rows fails as a whole, and with the
/// same error.
proof fn lemma_parse_priorities_fails(kvs: Seq<KeyValueView>, n: int)
    requires
        0 <= n <= kvs.len(),
        parse_priorities(kvs.take(n)) is Err,
    ensures
        parse_priorities(kvs) == parse_priorities(kvs.take(n)),
    decreases kvs.len() - n,
{
    if n < kvs.len() {
        assert(kvs.take(n + 1).drop_last() =~= kvs.take(n));
        lemma_parse_priorities_fails(kvs, n + 1);
    } else {
        assert(kvs.take(n) =~= kvs);
    }
}

/// The task rows that `kvs` spell, in order, with the stored bytes left as
/// they are; or the error of the first key that spells no task key.
pub open spec fn parse_task_rows(kvs: Seq<KeyValueView>) -> Result<Seq<TaskRowView>, OpsError>
    decreases kvs.len(),
{
    if kvs.len() == 0 {
        Ok(seq![])
    } else {
        match parse_task_rows(kvs.drop_last()) {
            Err(e) => Err(e),
            Ok(front) => match parse_task_key(kvs.last().key) {
                Err(e) => Err(OpsError::Decode(e)),
                Ok(key) => Ok(
                    front.push(
                        TaskRowView {
                            key,
                            value: kvs.last().value,
                            revision: kvs.last().mod_revision,
                        },
                    ),
                ),
            },
        }
    }
}

/// The views of `rows`, in order.
pub open spec fn rows_view(rows: Seq<TaskRow>) -> Seq<TaskRowView> {
    Seq::new(rows.len(), |i: int| rows[i]@)
}

/// Reads the answer to a listing of task rows: one row per stored row, in
/// the order given. A key that does not parse fails the listing.
pub fn list_tasks_result(kvs: Vec<KeyValue>) -> (r: Result<Vec<TaskRow>, OpsError>)
    ensures
        match r {
            Ok(rows) => parse_task_rows(kvs_view(kvs@)) == Ok::<Seq<TaskRowView>, OpsError>(
                rows_view(rows@),
            ),
            Err(e) => parse_task_rows(kvs_view(kvs@)) == Err::<Seq<TaskRowView>, OpsError>(e),
        },
        r matches Ok(rows) ==> rows@.len() == kvs@.len(),
{
    let mut rows: Vec<TaskRow> = Vec::new();
    let mut i: usize = 0;
    assert(kvs_view(kvs@).take(0) =~= seq![]);
    assert(rows_view(rows@) =~= seq![]);
    while i < kvs.len()
        invariant
            0 <= i <= kvs.len(),
            rows@.len() == i,
            parse_task_rows(kvs_view(kvs@).take(i as int)) == Ok::<Seq<TaskRowView>, OpsError>(
                rows_view(rows@),
            ),
        decreases kvs.len() - i,
    {
        let ghost all = kvs_view(kvs@);
        let ghost before = rows_view(rows@);
        proof {
            assert(all.take(i + 1).drop_last() =~= all.take(i as int));
            assert(all.take(i + 1).last() == kvs@[i as int]@);
        }
        match TaskKey::decode(kvs[i].key.as_slice()) {
            Ok(key) => {
                let row = TaskRow {
                    key,
                    value: kvs[i].value.clone(),
                    revision: Revision(kvs[i].mod_revision),
                };
                rows.push(row);
                assert(rows_view(rows@) =~= before.push(row@));
            },
            Err(e) => {
                proof {
                    lemma_parse_task_rows_fails(all, i + 1);
                }
                return Err(OpsError::Decode(e));
            },
        }
        i += 1;
    }
    assert(kvs_view(kvs@).take(i as int) =~= kvs_view(kvs@));
    Ok(rows)
}

/// A listing that fails on its first `n` rows fails as a whole, and with the
/// same error.
proof fn lemma_parse_task_rows_fails(kvs: Seq<KeyValueView>, n: int)
    requires
        0 <= n <= kvs.len(),
        parse_task_rows(kvs.take(n)) is Err,
    ensures
        parse_task_rows(kvs) == parse_task_rows(kvs.take(n)),
    decreases kvs.len() - n,
{
    if n < kvs.len() {
        assert(kvs.take(n + 1).drop_last() =~= kvs.take(n));
        lemma_parse_task_rows_fails(kvs, n + 1);
    } else {
        assert(kvs.take(n) =~= kvs);
    }
}

/// The index entries that the keys of `kvs` spell, in order, leaving out
/// every key that spells none.
pub open spec fn readable_priorities(kvs: Seq<KeyValueView>) -> Seq<PriorityKey>
    decreases kvs.len(),
{
    if kvs.len() == 0 {
        seq![]
    } else {
        match parse_priority_key(kvs.last().key) {
            Err(_) => readable_priorities(kvs.drop_last()),
            Ok(key) => readable_priorities(kvs.drop_last()).push(key),
        }
    }
}

/// Reads the answer to a listing of the index for a worker: a key that does
/// not parse is passed over, so that one bad row does not hold up the feed.
pub fn list_priorities_readable(kvs: &Vec<KeyValue>) -> (keys: Vec<PriorityKey>)
    ensures
        keys@ == readable_priorities(kvs_view(kvs@)),
{
    let mut keys: Vec<PriorityKey> = Vec::new();
    let mut i: usize = 0;
    assert(kvs_view(kvs@).take(0) =~= seq![]);
    while i < kvs.len()
        invariant
            0 <= i <= kvs.len(),
            keys@ == readable_priorities(kvs_view(kvs@).take(i as int)),
        decreases kvs.len() - i,
    {
        let ghost all = kvs_view(kvs@);
        proof {
            assert(all.take(i + 1).drop_last() =~= all.take(i as int));
            assert(all.take(i + 1).last() == kvs@[i as int]@);
        }
        match PriorityKey::decode(kvs[i].key.as_slice()) {
            Ok(key) => {
                keys.push(key);
            },
            Err(_) => {},
        }
        i += 1;
    }
    assert(kvs_view(kvs@).take(i as int) =~= kvs_view(kvs@));
    keys
}

/// The task rows that `kvs` spell, in order, leaving out every row whose
/// key spells no task key.
pub open spec fn readable_task_rows(kvs: Seq<KeyValueView>) -> Seq<TaskRowView>
    decreases kvs.len(),
{
    if kvs.len() == 0 {
        seq![]
    } else {
        match parse_task_key(kvs.last().key) {
            Err(_) => readable_task_rows(kvs.drop_last()),
            Ok(key) => readable_task_rows(kvs.drop_last()).push(
                TaskRowView { key, value: kvs.last().value, revision: kvs.last().mod_revision },
            ),
        }
    }
}

/// Reads the answer to a listing of task rows for a worker: a key that does
/// not parse is passed over.
pub fn list_tasks_readable(kvs: Vec<KeyValue>) -> (rows: Vec<TaskRow>)
    ensures
        rows_view(rows@) == readable_task_rows(kvs_view(kvs@)),
{
    let mut rows: Vec<TaskRow> = Vec::new();
    let mut i: usize = 0;
    assert(kvs_view(kvs@).take(0) =~= seq![]);
    assert(rows_view(rows@) =~= seq![]);
    while i < kvs.len()
        invariant
            0 <= i <= kvs.len(),
            rows_view(rows@) == readable_task_rows(kvs_view(kvs@).take(i as int)),
        decreases kvs.len() - i,
    {
        let ghost all = kvs_view(kvs@);
        let ghost before = rows_view(rows@);
        proof {
            assert(all.take(i + 1).drop_last() =~= all.take(i as int));
            assert(all.take(i + 1).last() == kvs@[i as int]@);
        }
        match TaskKey::decode(kvs[i].key.as_slice()) {
            Ok(key) => {
                let row = TaskRow {
                    key,
                    value: kvs[i].value.clone(),
                    revision: Revision(kvs[i].mod_revision),
                };
                rows.push(row);
                assert(rows_view(rows@) =~= before.push(row@));
            },
            Err(_) => {},
        }
        i += 1;
    }
    assert(kvs_view(kvs@).take(i as int) =~= kvs_view(kvs@));
    rows
}

/// The transaction that looks a task up: one read for each state in
/// `states`, in that order, with no guard.
pub open spec fn find_plan(id: Seq<u8>, states: Seq<TaskState>) -> TxnView {
    TxnView {
        compares: seq![],
        operations: Seq::new(
            states.len(),
            |i: int| OpView::Get { key: task_key_bytes(states[i], id) },
        ),
    }
}

/// Builds the transaction that looks for the task `id` under each of
/// `try_states`.
pub fn find_txn(id: &TaskId, try_states: &[TaskState]) -> (txn: Txn)
    ensures
        txn@ == find_plan(id@, try_states@),
{
    let mut operations: Vec<TxnOp> = Vec::new();
    let mut i: usize = 0;
    while i < try_states.len()
        invariant
            0 <= i <= try_states.len(),
            ops_view(operations@) == find_plan(id@, try_states@).operations.take(i as int),
        decreases try_states.len() - i,
    {
        let key = TaskKey::new(try_states[i], *id);
        let ghost before = ops_view(operations@);
        push_op(&mut operations, get_op(key.encode()));
        assert(before.push(OpView::Get { key: key.encoding() }) =~= find_plan(
            id@,
            try_states@,
        ).operations.take(i + 1));
        i += 1;
    }
    let txn = Txn { compares: Vec::new(), operations };
    assert(txn@.compares =~= seq![]);
    assert(find_plan(id@, try_states@).operations.take(i as int) =~= find_plan(
        id@,
        try_states@,
    ).operations);
    txn
}

/// The rows that the reads among `responses` found, in the order of the
/// answers.
pub open spec fn found_rows(responses: Seq<OpResponseView>) -> Seq<KeyValueView>
    decreases responses.len(),
{
    if responses.len() == 0 {
        seq![]
    } else {
        found_rows(responses.drop_last()) + match responses.last() {
            OpResponseView::Get { kvs } => kvs,
            _ => seq![],
        }
    }
}

/// What a lookup found: nothing where no read found a row, the row where
/// exactly one row was found and its key parses, and an error where more
/// than one row was found or the key of the only one does not parse.
pub open spec fn find_outcome(response: TxnResponseView) -> Result<Option<TaskRowView>, OpsError> {
    let rows = found_rows(response.op_responses);
    if rows.len() == 0 {
        Ok(None)
    } else if rows.len() > 1 {
        Err(OpsError::Inconsistent)
    } else {
        match parse_task_key(rows[0].key) {
            Err(e) => Err(OpsError::Decode(e)),
            Ok(key) => Ok(
                Some(TaskRowView { key, value: rows[0].value, revision: rows[0].mod_revision }),
            ),
        }
    }
}

/// Reads the answer to a lookup.
pub fn find_result(response: &TxnResponse) -> (r: Result<Option<TaskRow>, OpsError>)
    ensures
        match r {
            Ok(Some(row)) => find_outcome(response@) == Ok::<Option<TaskRowView>, OpsError>(
                Some(row@),
            ),
            Ok(None) => find_outcome(response@) == Ok::<Option<TaskRowView>, OpsError>(None),
            Err(e) => find_outcome(response@) == Err::<Option<TaskRowView>, OpsError>(e),
        },
{
    let mut first: Option<&KeyValue> = None;
    let mut i: usize = 0;
    let ghost all = response@.op_responses;
    assert(all.take(0) =~= seq![]);
    while i < response.op_responses.len()
        invariant
            0 <= i <= response.op_responses.len(),
            all == response@.op_responses,
            all.len() == response.op_responses.len(),
            found_rows(all.take(i as int)).len() <= 1,
            match first {
                Some(kv) => found_rows(all.take(i as int)) == seq![kv@],
                None => found_rows(all.take(i as int)).len() == 0,
            },
        decreases response.op_responses.len() - i,
    {
        proof {
            assert(all.take(i + 1).drop_last() =~= all.take(i as int));
            assert(all.take(i + 1).last() == response.op_responses@[i as int]@);
        }
        match &response.op_responses[i] {
            TxnOpResponse::Get { kvs } => {
                let ghost here = kvs_view(kvs@);
                assert(found_rows(all.take(i + 1)) == found_rows(all.take(i as int)) + here);
                if kvs.len() > 1 || (kvs.len() == 1 && first.is_some()) {
                    proof {
                        lemma_found_rows_grow(all, i + 1);
                    }
                    return Err(OpsError::Inconsistent);
                }
                if kvs.len() == 1 {
                    first = Some(&kvs[0]);
                    assert(found_rows(all.take(i + 1)) =~= seq![kvs@[0]@]);
                } else {
                    assert(found_rows(all.take(i + 1)) =~= found_rows(all.take(i as int)));
                }
            },
            _ => {
                assert(found_rows(all.take(i + 1)) =~= found_rows(all.take(i as int)));
            },
        }
        i += 1;
    }
    assert(all.take(i as int) =~= all);
    match first {
        None => Ok(None),
        Some(kv) => match TaskKey::decode(kv.key.as_slice()) {
            Err(e) => Err(OpsError::Decode(e)),
            Ok(key) => Ok(
                Some(TaskRow { key, value: kv.value.clone(), revision: Revision(kv.mod_revision) }),
            ),
        },
    }
}

/// The rows found among the first `n` answers are among those found in all.
proof fn lemma_found_rows_grow(responses: Seq<OpResponseView>, n: int)
    requires
        0 <= n <= responses.len(),
    ensures
        found_rows(responses.take(n)).len() <= found_rows(responses).len(),
    decreases responses.len() - n,
{
    if n < responses.len() {
        assert(responses.take(n + 1).drop_last() =~= responses.take(n));
        lemma_found_rows_grow(responses, n + 1);
    } else {
        assert(responses.take(n) =~= responses);
    }
}

/// The guarded transaction behind every change of a task: `operations`,
/// then a read of `new_key`, applied only if `old_key` is still at
/// `revision`.
pub open spec fn update_plan(
    revision: Revision,
    old_key: TaskKey,
    new_key: TaskKey,
    operations: Seq<OpView>,
) -> TxnView {
    TxnView {
        compares: seq![CompareView { key: old_key.encoding(), mod_revision: revision.0 as int }],
        operations: operations.push(OpView::Get { key: new_key.encoding() }),
    }
}

/// Builds a guarded transaction: see [`update_plan`].
pub fn update_txn(
    revision: Revision,
    old_key: &TaskKey,
    new_key: &TaskKey,
    operations: Vec<TxnOp>,
) -> (txn: Txn)
    ensures
        txn@ == update_plan(revision, *old_key, *new_key, ops_view(operations@)),
{
    let mut operations = operations;
    push_op(&mut operations, get_op(new_key.encode()));
    let mut compares: Vec<Compare> = Vec::new();
    compares.push(Compare { key: old_key.encode(), mod_revision: revision.0 });
    let txn = Txn { compares, operations };
    assert(txn@.compares =~= seq![
        CompareView { key: old_key.encoding(), mod_revision: revision.0 as int },
    ]);
    txn
}

/// What the answer to a guarded transaction says: `None` where the guard
/// failed; the revision of the row that the last read found where it held;
/// an error where the answer does not end in a read, or that read found no
/// row.
pub open spec fn update_outcome(response: TxnResponseView) -> Result<Option<int>, OpsError> {
    if !response.succeeded {
        Ok(None)
    } else if response.op_responses.len() == 0 {
        Err(OpsError::MissingRead)
    } else {
        match response.op_responses.last() {
            OpResponseView::Get { kvs } => if kvs.len() == 0 {
                Err(OpsError::MissingRow)
            } else {
                Ok(Some(kvs[0].mod_revision))
            },
            _ => Err(OpsError::MissingRead),
        }
    }
}

/// Reads the answer to a guarded transaction: see [`update_outcome`].
pub fn update_result(response: &TxnResponse) -> (r: Result<Option<Revision>, OpsError>)
    ensures
        match r {
            Ok(Some(revision)) => update_outcome(response@) == Ok::<Option<int>, OpsError>(
                Some(revision.0 as int),
            ),
            Ok(None) => update_outcome(response@) == Ok::<Option<int>, OpsError>(None),
            Err(e) => update_outcome(response@) == Err::<Option<int>, OpsError>(e),
        },
{
    if !response.succeeded {
        return Ok(None);
    }
    let n = response.op_responses.len();
    if n == 0 {
        return Err(OpsError::MissingRead);
    }
    assert(response@.op_responses.last() == response.op_responses@[n - 1]@);
    match &response.op_responses[n - 1] {
        TxnOpResponse::Get { kvs } => {
            if kvs.len() == 0 {
                Err(OpsError::MissingRow)
            } else {
                Ok(Some(Revision(kvs[0].mod_revision)))
            }
        },
        _ => Err(OpsError::MissingRead),
    }
}

impl Task {
    /// The task as a worker named `name` holds it from `now` on.
    pub open spec fn acquired(self, name: WorkerName, now: Timestamp) -> Task {
        Task {
            key: TaskKey { state: TaskState::Running, id: self.key.id },
            value: TaskValue { assignee: Some(name), updated_at: now, ..self.value },
        }
    }

    /// The task as it waits again from `now` on, held by no one.
    pub open spec fn requeued(self, now: Timestamp) -> Task {
        Task {
            key: TaskKey { state: TaskState::Queued, id: self.key.id },
            value: TaskValue { assignee: None, updated_at: now, ..self.value },
        }
    }

    /// The task after `progress` more of its work was done by `now`.
    pub open spec fn progressed(self, progress: WorkTime, now: Timestamp) -> Task {
        Task {
            key: self.key,
            value: TaskValue {
                remaining: WorkTime { nanos: (self.value.remaining.nanos - progress.nanos) as u128 },
                updated_at: now,
                ..self.value
            },
        }
    }
}

/// Hands `task` to the worker `name` at the time `now`: the task runs, is
/// assigned, and is stamped.
pub fn acquire_task_at(task: Task, name: WorkerName, now: Timestamp) -> (next: Task)
    ensures
        next == task.acquired(name, now),
        task.value.remaining.nanos <= task.value.duration.nanos ==> next.well_formed(),
{
    let mut task = task;
    task.key.state = TaskState::Running;
    task.value.assignee = Some(name);
    task.value.updated_at = now;
    task
}

/// Hands `task` to the worker `name` now, by the system clock.
pub fn acquire_task(task: Task, name: WorkerName) -> (next: Task)
    ensures
        next == task.acquired(name, next.value.updated_at),
{
    acquire_task_at(task, name, Timestamp::now())
}

/// The transaction that takes a task: it removes the row under `initial`
/// and the index entry, writes the row under `next`, and reads it back, if
/// `initial` is still at `revision`.
pub open spec fn acquire_plan(
    initial: TaskKey,
    next: Task,
    revision: Revision,
    value: Seq<u8>,
) -> TxnView {
    update_plan(
        revision,
        initial,
        next.key,
        seq![
            OpView::Delete { key: initial.encoding() },
            OpView::Delete { key: priority_key_bytes(next.value.priority.0, next.key.id@) },
            OpView::Put { key: next.key.encoding(), value },
        ],
    )
}

/// Builds the transaction that takes a task. `initial` is the key under
/// which the task was read at `revision`, `next` the task as acquired, and
/// `value` its stored form.
pub fn acquire_txn(initial: &TaskKey, next: &Task, revision: Revision, value: Vec<u8>) -> (txn: Txn)
    ensures
        txn@ == acquire_plan(*initial, *next, revision, value@),
{
    let mut operations: Vec<TxnOp> = Vec::new();
    assert(ops_view(operations@) =~= seq![]);
    push_op(&mut operations, delete_op(initial.encode()));
    push_op(&mut operations, delete_op(PriorityKey::from_task(next).encode()));
    push_op(&mut operations, put_op(next.key.encode(), value));
    assert(ops_view(operations@) =~= seq![
        OpView::Delete { key: initial.encoding() },
        OpView::Delete { key: priority_key_bytes(next.value.priority.0, next.key.id@) },
        OpView::Put { key: next.key.encoding(), value: value@ },
    ]);
    update_txn(revision, initial, &next.key, operations)
}

/// Records at the time `now` that `progress` of the task's work was done.
pub fn progress_task_at(task: Task, progress: WorkTime, now: Timestamp) -> (next: Task)
    requires
        progress.nanos <= task.value.remaining.nanos,
    ensures
        next == task.progressed(progress, now),
        next.value.remaining.nanos == task.value.remaining.nanos - progress.nanos,
        task.well_formed() ==> next.well_formed(),
{
    let mut task = task;
    task.value.remaining = WorkTime { nanos: task.value.remaining.nanos - progress.nanos };
    task.value.updated_at = now;
    task
}

/// Records now, by the system clock, that `progress` of the task's work was
/// done.
pub fn progress_task(task: Task, progress: WorkTime) -> (next: Task)
    requires
        progress.nanos <= task.value.remaining.nanos,
    ensures
        next == task.progressed(progress, next.value.updated_at),
        next.value.remaining.nanos == task.value.remaining.nanos - progress.nanos,
{
    progress_task_at(task, progress, Timestamp::now())
}

/// The transaction that records progress: it writes the row in place and
/// reads it back, if it is still at `revision`.
pub open spec fn progress_plan(next: Task, revision: Revision, value: Seq<u8>) -> TxnView {
    update_plan(
        revision,
        next.key,
        next.key,
        seq![OpView::Put { key: next.key.encoding(), value }],
    )
}

/// Builds the transaction that records progress. `next` is the task as
/// progressed and `value` its stored form.
pub fn progress_txn(next: &Task, revision: Revision, value: Vec<u8>) -> (txn: Txn)
    ensures
        txn@ == progress_plan(*next, revision, value@),
{
    let mut operations: Vec<TxnOp> = Vec::new();
    assert(ops_view(operations@) =~= seq![]);
    push_op(&mut operations, put_op(next.key.encode(), value));
    update_txn(revision, &next.key, &next.key, operations)
}

/// Puts `task` back in the queue at the time `now`: the task waits, is
/// assigned to no one, and is stamped.
pub fn requeue_task_at(task: Task, now: Timestamp) -> (next: Task)
    ensures
        next == task.requeued(now),
        task.value.remaining.nanos <= task.value.duration.nanos ==> next.well_formed(),
{
    let mut task = task;
    task.key.state = TaskState::Queued;
    task.value.updated_at = now;
    task.value.assignee = None;
    task
}

/// Puts `task` back in the queue now, by the system clock.
pub fn requeue_task(task: Task) -> (next: Task)
    ensures
        next == task.requeued(next.value.updated_at),
{
    requeue_task_at(task, Timestamp::now())
}

/// The transaction that requeues a task: it removes the row under
/// `initial`, writes the row under `next` and the index entry, and reads
/// the row back, if `initial` is still at `revision`.
pub open spec fn requeue_plan(
    initial: TaskKey,
    next: Task,
    revision: Revision,
    value: Seq<u8>,
) -> TxnView {
    update_plan(
        revision,
        initial,
        next.key,
        seq![
            OpView::Delete { key: initial.encoding() },
            OpView::Put { key: next.key.encoding(), value },
            OpView::Put {
                key: priority_key_bytes(next.value.priority.0, next.key.id@),
                value: seq![],
            },
        ],
    )
}

/// Builds the transaction that requeues a task. `initial` is the key under
/// which the task was read at `revision`, `next` the task as requeued, and
/// `value` its stored form.
pub fn requeue_txn(initial: &TaskKey, next: &Task, revision: Revision, value: Vec<u8>) -> (txn: Txn)
    ensures
        txn@ == requeue_plan(*initial, *next, revision, value@),
{
    let mut operations: Vec<TxnOp> = Vec::new();
    assert(ops_view(operations@) =~= seq![]);
    push_op(&mut operations, delete_op(initial.encode()));
    push_op(&mut operations, put_op(next.key.encode(), value));
    let marker: Vec<u8> = Vec::new();
    assert(marker@ =~= seq![]);
    push_op(&mut operations, put_op(PriorityKey::from_task(next).encode(), marker));
    assert(ops_view(operations@) =~= seq![
        OpView::Delete { key: initial.encoding() },
        OpView::Put { key: next.key.encoding(), value: value@ },
        OpView::Put {
            key: priority_key_bytes(next.value.priority.0, next.key.id@),
            value: seq![],
        },
    ]);
    update_txn(revision, initial, &next.key, operations)
}

/// The transaction that ends a task: it removes the row under `key`, if it
/// is still at `revision`.
pub open spec fn finish_plan(key: TaskKey, revision: Revision) -> TxnView {
    TxnView {
        compares: seq![CompareView { key: key.encoding(), mod_revision: revision.0 as int }],
        operations: seq![OpView::Delete { key: key.encoding() }],
    }
}

/// Builds the transaction that ends the task under `key`.
pub fn finish_txn(key: &TaskKey, revision: Revision) -> (txn: Txn)
    ensures
        txn@ == finish_plan(*key, revision),
{
    let mut operations: Vec<TxnOp> = Vec::new();
    assert(ops_view(operations@) =~= seq![]);
    push_op(&mut operations, delete_op(key.encode()));
    let mut compares: Vec<Compare> = Vec::new();
    compares.push(Compare { key: key.encode(), mod_revision: revision.0 });
    let txn = Txn { compares, operations };
    assert(txn@.compares =~= finish_plan(*key, revision).compares);
    txn
}

/// Reads the answer to the transaction that ends a task: `Some` where the
/// row was removed, `None` where the guard failed.
pub fn finish_result(response: &TxnResponse) -> (r: Option<()>)
    ensures
        r is Some <==> response@.succeeded,
{
    if response.succeeded {
        Some(())
    } else {
        None
    }
}

/// The transaction that cancels a task that a lookup found as `found`: it
/// removes the row under either state and, where the task was found queued,
/// its index entry. It has no guard.
pub open spec fn cancel_plan(found: Task) -> TxnView {
    let rows = seq![
        OpView::Delete { key: task_key_bytes(TaskState::Queued, found.key.id@) },
        OpView::Delete { key: task_key_bytes(TaskState::Running, found.key.id@) },
    ];
    TxnView {
        compares: seq![],
        operations: if found.key.state == TaskState::Queued {
            rows.push(
                OpView::Delete {
                    key: priority_key_bytes(found.value.priority.0, found.key.id@),
                },
            )
        } else {
            rows
        },
    }
}

/// Builds the transaction that cancels the task `found`.
pub fn cancel_txn(found: &Task) -> (txn: Txn)
    ensures
        txn@ == cancel_plan(*found),
{
    let mut operations: Vec<TxnOp> = Vec::new();
    assert(ops_view(operations@) =~= seq![]);
    push_op(&mut operations, delete_op(TaskKey::new(TaskState::Queued, found.key.id).encode()));
    push_op(&mut operations, delete_op(TaskKey::new(TaskState::Running, found.key.id).encode()));
    match found.key.state {
        TaskState::Queued => {
            push_op(&mut operations, delete_op(PriorityKey::from_task(found).encode()));
        },
        TaskState::Running => {},
    }
    let txn = Txn { compares: Vec::new(), operations };
    assert(txn@.compares =~= seq![]);
    assert(txn@.operations =~= cancel_plan(*found).operations);
    txn
}

} // verus!
