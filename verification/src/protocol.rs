//! What the operations guarantee when their transactions meet the store.
//!
//! Nodes share nothing but the store, and the store applies transactions one
//! after another. So every statement about nodes that race is a statement
//! about transactions applied in some order to [`Store`], and that is how
//! the laws of this module are phrased.

use vstd::prelude::*;

use crate::kv::{
    answer_op, apply_op, apply_ops, lemma_commit_well_formed, read_key, CompareView, KeyValueView,
    OpResponseView, OpView, RangeRequestView, Revision, Row, SortOrder, Store, TxnView,
};
use crate::name::WorkerName;
use crate::ops::{
    acquire_plan, cancel_plan, create_plan, find_outcome, find_plan, finish_plan, found_rows,
    parse_priorities, parse_task_rows, progress_plan, requeue_plan, update_outcome, update_plan,
    OpsError, TaskRowView,
};
use crate::task::{
    lemma_feed_order, lemma_priority_key_parse_exact, parse_priority_key, parse_task_key,
    precedes, priority_key_bytes, state_byte, task_key_bytes, KeyError, PriorityKey, Task,
    TaskKey, TaskState, PRIORITY_PREFIX, TASK_PREFIX,
};
use crate::time::{Timestamp, WorkTime};

verus! {

/// The key of the queued row of the task `id`.
pub open spec fn queued_key(id: Seq<u8>) -> Seq<u8> {
    task_key_bytes(TaskState::Queued, id)
}

/// The key of the running row of the task `id`.
pub open spec fn running_key(id: Seq<u8>) -> Seq<u8> {
    task_key_bytes(TaskState::Running, id)
}

/// The key of the index entry of the task `id` under `priority`.
pub open spec fn index_key(priority: u8, id: Seq<u8>) -> Seq<u8> {
    priority_key_bytes(priority, id)
}

/// Whether the store lists the task `id` in the feed, under any priority.
pub open spec fn indexed(store: Store, id: Seq<u8>) -> bool {
    exists|priority: u8| store.contains(#[trigger] index_key(priority, id))
}

/// The invariants of the data model, as far as they concern keys: no task
/// has a row under both states; a task is listed in the feed if and only if
/// it is queued; and it is listed once.
pub open spec fn consistent(store: Store) -> bool {
    &&& store.well_formed()
    &&& forall|id: Seq<u8>|
        !(store.contains(#[trigger] queued_key(id)) && store.contains(running_key(id)))
    &&& forall|priority: u8, id: Seq<u8>|
        store.contains(#[trigger] index_key(priority, id)) ==> store.contains(queued_key(id))
    &&& forall|id: Seq<u8>| store.contains(#[trigger] queued_key(id)) ==> indexed(store, id)
    &&& forall|p: u8, q: u8, id: Seq<u8>|
        store.contains(#[trigger] index_key(p, id)) && store.contains(#[trigger] index_key(q, id))
            ==> p == q
}

/// Whether the task `id` has no row and no index entry in the store.
pub open spec fn absent(store: Store, id: Seq<u8>) -> bool {
    &&& !store.contains(queued_key(id))
    &&& !store.contains(running_key(id))
    &&& !indexed(store, id)
}

/// Whether `task` is listed in the feed as its own priority says, in case
/// it is queued in the store. This holds of a task that was read from a
/// consistent store and has not been moved since.
pub open spec fn listed_as(store: Store, task: Task) -> bool {
    store.contains(queued_key(task.key.id@)) ==> store.contains(
        index_key(task.value.priority.0, task.key.id@),
    )
}

/// Whether `after` holds, under every key outside `touched`, exactly what
/// `store` holds there.
pub open spec fn same_elsewhere(store: Store, after: Store, touched: Set<Seq<u8>>) -> bool {
    forall|key: Seq<u8>|
        !touched.contains(key) ==> {
            &&& (#[trigger] after.rows.contains_key(key)) == store.rows.contains_key(key)
            &&& store.rows.contains_key(key) ==> after.rows[key] == store.rows[key]
        }
}

/// The three keys under which anything of the task `id` with the priority
/// `priority` can be stored.
pub open spec fn keys_of(priority: u8, id: Seq<u8>) -> Set<Seq<u8>> {
    set![queued_key(id), running_key(id), index_key(priority, id)]
}

/// What the bytes of a key say of the state, the priority and the
/// identifier that it was made from.
pub proof fn lemma_key_parts()
    ensures
        forall|state: TaskState, id: Seq<u8>|
            #![trigger task_key_bytes(state, id)]
            {
                let key = task_key_bytes(state, id);
                &&& key.len() == id.len() + 2
                &&& key[0] == TASK_PREFIX
                &&& key[1] == state_byte(state)
                &&& key.skip(2) == id
            },
        forall|priority: u8, id: Seq<u8>|
            #![trigger priority_key_bytes(priority, id)]
            {
                let key = priority_key_bytes(priority, id);
                &&& key.len() == id.len() + 2
                &&& key[0] == PRIORITY_PREFIX
                &&& key[1] == priority
                &&& key.skip(2) == id
            },
{
    assert forall|state: TaskState, id: Seq<u8>| #![trigger task_key_bytes(state, id)]
        {
            let key = task_key_bytes(state, id);
            &&& key.len() == id.len() + 2
            &&& key[0] == TASK_PREFIX
            &&& key[1] == state_byte(state)
            &&& key.skip(2) == id
        } by {
        assert(task_key_bytes(state, id).skip(2) =~= id);
    }
    assert forall|priority: u8, id: Seq<u8>| #![trigger priority_key_bytes(priority, id)]
        {
            let key = priority_key_bytes(priority, id);
            &&& key.len() == id.len() + 2
            &&& key[0] == PRIORITY_PREFIX
            &&& key[1] == priority
            &&& key.skip(2) == id
        } by {
        assert(priority_key_bytes(priority, id).skip(2) =~= id);
    }
}

/// Operations are applied one after another: the last one meets the rows
/// that the others left.
pub proof fn lemma_apply_ops_push(rows: Map<Seq<u8>, Row>, ops: Seq<OpView>, op: OpView, at: int)
    ensures
        apply_ops(rows, ops.push(op), at) == apply_op(apply_ops(rows, ops, at), op, at),
{
    assert(ops.push(op).drop_last() =~= ops);
}

/// The rows after one operation.
proof fn lemma_apply_one(rows: Map<Seq<u8>, Row>, a: OpView, at: int)
    ensures
        apply_ops(rows, seq![a], at) == apply_op(rows, a, at),
{
    lemma_apply_ops_push(rows, seq![], a, at);
    assert(seq![].push(a) =~= seq![a]);
}

/// The rows after two operations.
proof fn lemma_apply_two(rows: Map<Seq<u8>, Row>, a: OpView, b: OpView, at: int)
    ensures
        apply_ops(rows, seq![a, b], at) == apply_op(apply_op(rows, a, at), b, at),
{
    lemma_apply_ops_push(rows, seq![a], b, at);
    assert(seq![a].push(b) =~= seq![a, b]);
    lemma_apply_one(rows, a, at);
}

/// The rows after three operations.
proof fn lemma_apply_three(rows: Map<Seq<u8>, Row>, a: OpView, b: OpView, c: OpView, at: int)
    ensures
        apply_ops(rows, seq![a, b, c], at) == apply_op(
            apply_op(apply_op(rows, a, at), b, at),
            c,
            at,
        ),
{
    lemma_apply_ops_push(rows, seq![a, b], c, at);
    assert(seq![a, b].push(c) =~= seq![a, b, c]);
    lemma_apply_two(rows, a, b, at);
}

/// The rows after the operations of a guarded transaction: those after
/// `operations`, since the read at the end changes nothing.
proof fn lemma_update_rows(
    store: Store,
    revision: Revision,
    old_key: TaskKey,
    new_key: TaskKey,
    operations: Seq<OpView>,
)
    ensures
        ({
            let plan = update_plan(revision, old_key, new_key, operations);
            let at = store.revision + 1;
            let rows = apply_ops(store.rows, operations, at);
            &&& store.succeeds(plan) <==> store.mod_revision(old_key.encoding()) == revision.0
            &&& apply_ops(store.rows, plan.operations, at) == rows
            &&& (operations.len() > 0 && !(operations[0] is Get)) ==> plan.writes()
            &&& store.succeeds(plan) ==> update_outcome(store.respond(plan)) == if rows.contains_key(
                new_key.encoding(),
            ) {
                Ok::<Option<int>, OpsError>(Some(rows[new_key.encoding()].mod_revision))
            } else {
                Err::<Option<int>, OpsError>(OpsError::MissingRow)
            }
            &&& !store.succeeds(plan) ==> update_outcome(store.respond(plan)) == Ok::<
                Option<int>,
                OpsError,
            >(None)
        }),
{
    let plan = update_plan(revision, old_key, new_key, operations);
    let at = store.revision + 1;
    let guard = CompareView { key: old_key.encoding(), mod_revision: revision.0 as int };
    assert(plan.compares[0] == guard);
    lemma_apply_ops_push(store.rows, operations, OpView::Get { key: new_key.encoding() }, at);
    if operations.len() > 0 && !(operations[0] is Get) {
        assert(plan.operations[0] == operations[0]);
    }
    if store.succeeds(plan) {
        let n = plan.operations.len();
        assert(plan.operations.take(n as int) =~= plan.operations);
        assert(store.respond(plan).op_responses.last() == answer_op(
            apply_ops(store.rows, plan.operations.take(n as int), at),
            plan.operations[n - 1],
        ));
    }
}

/// What taking a task does to the store.
///
/// The transaction is applied if and only if the queued row is still at the
/// revision at which it was read. Applied, it leaves the task running,
/// takes it out of the queue and out of the feed, and reports the revision
/// of the new row; refused, it leaves the store as it was and reports
/// `None`. Either way the invariants of the data model hold afterwards, and no
/// other task is touched.
pub proof fn lemma_acquire(
    store: Store,
    task: Task,
    revision: Revision,
    name: WorkerName,
    now: Timestamp,
    value: Seq<u8>,
)
    requires
        consistent(store),
        task.key.state == TaskState::Queued,
        revision.0 > 0,
        listed_as(store, task),
    ensures
        ({
            let next = task.acquired(name, now);
            let plan = acquire_plan(task.key, next, revision, value);
            let after = store.commit(plan);
            let id = task.key.id@;
            &&& consistent(after)
            &&& same_elsewhere(store, after, keys_of(task.value.priority.0, id))
            &&& store.succeeds(plan) <==> store.mod_revision(queued_key(id)) == revision.0
            &&& store.succeeds(plan) ==> {
                &&& after.contains(running_key(id))
                &&& after.rows[running_key(id)] == Row { value, mod_revision: store.revision + 1 }
                &&& !after.contains(queued_key(id))
                &&& !indexed(after, id)
                &&& update_outcome(store.respond(plan)) == Ok::<Option<int>, OpsError>(
                    Some(store.revision + 1),
                )
            }
            &&& !store.succeeds(plan) ==> {
                &&& after == store
                &&& update_outcome(store.respond(plan)) == Ok::<Option<int>, OpsError>(None)
            }
        }),
{
    let next = task.acquired(name, now);
    let plan = acquire_plan(task.key, next, revision, value);
    let after = store.commit(plan);
    let id = task.key.id@;
    let priority = task.value.priority.0;
    let at = store.revision + 1;
    let a = OpView::Delete { key: queued_key(id) };
    let b = OpView::Delete { key: index_key(priority, id) };
    let c = OpView::Put { key: running_key(id), value };
    lemma_key_parts();
    lemma_update_rows(store, revision, task.key, next.key, seq![a, b, c]);
    lemma_apply_three(store.rows, a, b, c, at);
    assert(seq![a, b, c][0] == a);
    lemma_commit_well_formed(store, plan);
    if store.succeeds(plan) {
        let rows = store.rows.remove(queued_key(id)).remove(index_key(priority, id)).insert(
            running_key(id),
            Row { value, mod_revision: at },
        );
        assert(after.rows == rows);
        assert(store.contains(queued_key(id)));
        assert(store.contains(index_key(priority, id)));
        assert forall|q: u8| !after.contains(#[trigger] index_key(q, id)) by {
            if store.contains(index_key(q, id)) {
                assert(q == priority);
            }
        }
        assert forall|other: Seq<u8>| after.contains(#[trigger] queued_key(other)) implies indexed(
            after,
            other,
        ) by {
            assert(other != id);
            assert(indexed(store, other));
            let q = choose|q: u8| store.contains(#[trigger] index_key(q, other));
            assert(after.contains(index_key(q, other)));
        }
        assert forall|other: Seq<u8>|
            !(after.contains(#[trigger] queued_key(other)) && after.contains(
                running_key(other),
            )) by {
            if other != id {
                assert(after.contains(queued_key(other)) == store.contains(queued_key(other)));
                assert(after.contains(running_key(other)) == store.contains(running_key(other)));
            }
        }
        assert forall|q: u8, other: Seq<u8>| after.contains(#[trigger] index_key(q, other)) implies after.contains(
            queued_key(other),
        ) by {
            assert(store.contains(index_key(q, other)));
            assert(store.contains(queued_key(other)));
        }
    }
}

/// Storing a new task is never refused: its transaction has no guard.
pub proof fn lemma_create_never_refused(store: Store, task: Task, value: Seq<u8>)
    ensures
        store.succeeds(create_plan(task, value)),
        create_plan(task, value).writes(),
{
    let plan = create_plan(task, value);
    assert(!(plan.operations[0] is Get));
}

/// What storing a new task does to the store: the task is queued and listed
/// in the feed under its priority, no other task is touched, and the
/// invariants of the data model hold afterwards. The task must be new to
/// the store, as one with a fresh identifier is.
pub proof fn lemma_create(store: Store, task: Task, value: Seq<u8>)
    requires
        consistent(store),
        task.key.state == TaskState::Queued,
        !store.contains(queued_key(task.key.id@)),
        !store.contains(running_key(task.key.id@)),
    ensures
        ({
            let after = store.commit(create_plan(task, value));
            let id = task.key.id@;
            &&& consistent(after)
            &&& same_elsewhere(store, after, keys_of(task.value.priority.0, id))
            &&& after.contains(queued_key(id))
            &&& after.rows[queued_key(id)] == Row { value, mod_revision: store.revision + 1 }
            &&& after.contains(index_key(task.value.priority.0, id))
            &&& !after.contains(running_key(id))
        }),
{
    let plan = create_plan(task, value);
    let after = store.commit(plan);
    let id = task.key.id@;
    let priority = task.value.priority.0;
    let at = store.revision + 1;
    let a = OpView::Put { key: queued_key(id), value };
    let b = OpView::Put { key: index_key(priority, id), value: seq![] };
    lemma_key_parts();
    lemma_create_never_refused(store, task, value);
    lemma_apply_two(store.rows, a, b, at);
    lemma_commit_well_formed(store, plan);
    let rows = store.rows.insert(queued_key(id), Row { value, mod_revision: at }).insert(
        index_key(priority, id),
        Row { value: seq![], mod_revision: at },
    );
    assert(after.rows == rows);
    assert forall|q: u8| store.contains(#[trigger] index_key(q, id)) implies false by {
        assert(store.contains(queued_key(id)));
    }
    assert forall|other: Seq<u8>| after.contains(#[trigger] queued_key(other)) implies indexed(
        after,
        other,
    ) by {
        if other == id {
            assert(after.contains(index_key(priority, id)));
        } else {
            assert(indexed(store, other));
            let q = choose|q: u8| store.contains(#[trigger] index_key(q, other));
            assert(after.contains(index_key(q, other)));
        }
    }
    assert forall|other: Seq<u8>|
        !(after.contains(#[trigger] queued_key(other)) && after.contains(running_key(other))) by {
        assert(after.contains(running_key(other)) == store.contains(running_key(other)));
        if other != id {
            assert(after.contains(queued_key(other)) == store.contains(queued_key(other)));
        }
    }
    assert forall|q: u8, other: Seq<u8>| after.contains(#[trigger] index_key(q, other)) implies after.contains(
        queued_key(other),
    ) by {
        if other != id {
            assert(store.contains(index_key(q, other)));
            assert(store.contains(queued_key(other)));
        }
    }
    assert forall|p: u8, q: u8, other: Seq<u8>|
        after.contains(#[trigger] index_key(p, other)) && after.contains(
            #[trigger] index_key(q, other),
        ) implies p == q by {
        if other != id {
            assert(store.contains(index_key(p, other)));
            assert(store.contains(index_key(q, other)));
        }
    }
}

/// What recording progress does to the store.
///
/// The transaction is applied if and only if the row is still at the
/// revision at which it was read. Applied, it replaces the stored bytes,
/// adds and removes no key, and reports the revision of the row; refused,
/// it leaves the store as it was and reports `None`. Either way the
/// invariants of the data model hold afterwards, and no other row is
/// touched.
pub proof fn lemma_progress(
    store: Store,
    task: Task,
    revision: Revision,
    progress: WorkTime,
    now: Timestamp,
    value: Seq<u8>,
)
    requires
        consistent(store),
        revision.0 > 0,
    ensures
        ({
            let next = task.progressed(progress, now);
            let plan = progress_plan(next, revision, value);
            let after = store.commit(plan);
            let key = task.key.encoding();
            &&& consistent(after)
            &&& same_elsewhere(store, after, set![key])
            &&& store.succeeds(plan) <==> store.mod_revision(key) == revision.0
            &&& store.succeeds(plan) ==> {
                &&& after.rows == store.rows.insert(
                    key,
                    Row { value, mod_revision: store.revision + 1 },
                )
                &&& after.rows.dom() == store.rows.dom()
                &&& update_outcome(store.respond(plan)) == Ok::<Option<int>, OpsError>(
                    Some(store.revision + 1),
                )
            }
            &&& !store.succeeds(plan) ==> {
                &&& after == store
                &&& update_outcome(store.respond(plan)) == Ok::<Option<int>, OpsError>(None)
            }
        }),
{
    let next = task.progressed(progress, now);
    let plan = progress_plan(next, revision, value);
    let after = store.commit(plan);
    let key = task.key.encoding();
    let at = store.revision + 1;
    let a = OpView::Put { key, value };
    lemma_update_rows(store, revision, next.key, next.key, seq![a]);
    lemma_apply_one(store.rows, a, at);
    assert(seq![a][0] == a);
    lemma_commit_well_formed(store, plan);
    if store.succeeds(plan) {
        assert(store.contains(key));
        assert(after.rows.dom() =~= store.rows.dom());
        assert forall|k: Seq<u8>| after.contains(k) == store.contains(k) by {
            assert(after.rows.dom().contains(k) == store.rows.dom().contains(k));
        }
        assert forall|other: Seq<u8>| after.contains(#[trigger] queued_key(other)) implies indexed(
            after,
            other,
        ) by {
            assert(indexed(store, other));
            let q = choose|q: u8| store.contains(#[trigger] index_key(q, other));
            assert(after.contains(index_key(q, other)));
        }
    }
}

/// What requeueing a task does to the store.
///
/// The transaction is applied if and only if the running row is still at
/// the revision at which it was read. Applied, it leaves the task queued
/// and listed in the feed under its priority, and reports the revision of
/// the new row; refused, it leaves the store as it was and reports `None`.
/// Either way the invariants of the data model hold afterwards, and no
/// other task is touched.
pub proof fn lemma_requeue(
    store: Store,
    task: Task,
    revision: Revision,
    now: Timestamp,
    value: Seq<u8>,
)
    requires
        consistent(store),
        task.key.state == TaskState::Running,
        revision.0 > 0,
    ensures
        ({
            let next = task.requeued(now);
            let plan = requeue_plan(task.key, next, revision, value);
            let after = store.commit(plan);
            let id = task.key.id@;
            &&& consistent(after)
            &&& same_elsewhere(store, after, keys_of(task.value.priority.0, id))
            &&& store.succeeds(plan) <==> store.mod_revision(running_key(id)) == revision.0
            &&& store.succeeds(plan) ==> {
                &&& after.contains(queued_key(id))
                &&& after.rows[queued_key(id)] == Row { value, mod_revision: store.revision + 1 }
                &&& after.contains(index_key(task.value.priority.0, id))
                &&& !after.contains(running_key(id))
                &&& update_outcome(store.respond(plan)) == Ok::<Option<int>, OpsError>(
                    Some(store.revision + 1),
                )
            }
            &&& !store.succeeds(plan) ==> {
                &&& after == store
                &&& update_outcome(store.respond(plan)) == Ok::<Option<int>, OpsError>(None)
            }
        }),
{
    let next = task.requeued(now);
    let plan = requeue_plan(task.key, next, revision, value);
    let after = store.commit(plan);
    let id = task.key.id@;
    let priority = task.value.priority.0;
    let at = store.revision + 1;
    let a = OpView::Delete { key: running_key(id) };
    let b = OpView::Put { key: queued_key(id), value };
    let c = OpView::Put { key: index_key(priority, id), value: seq![] };
    lemma_key_parts();
    lemma_update_rows(store, revision, task.key, next.key, seq![a, b, c]);
    lemma_apply_three(store.rows, a, b, c, at);
    assert(seq![a, b, c][0] == a);
    lemma_commit_well_formed(store, plan);
    if store.succeeds(plan) {
        let rows = store.rows.remove(running_key(id)).insert(
            queued_key(id),
            Row { value, mod_revision: at },
        ).insert(index_key(priority, id), Row { value: seq![], mod_revision: at });
        assert(after.rows == rows);
        assert(store.contains(running_key(id)));
        assert(!store.contains(queued_key(id)));
        assert forall|q: u8| store.contains(#[trigger] index_key(q, id)) implies false by {
            assert(store.contains(queued_key(id)));
        }
        assert forall|other: Seq<u8>| after.contains(#[trigger] queued_key(other)) implies indexed(
            after,
            other,
        ) by {
            if other == id {
                assert(after.contains(index_key(priority, id)));
            } else {
                assert(indexed(store, other));
                let q = choose|q: u8| store.contains(#[trigger] index_key(q, other));
                assert(after.contains(index_key(q, other)));
            }
        }
        assert forall|other: Seq<u8>|
            !(after.contains(#[trigger] queued_key(other)) && after.contains(
                running_key(other),
            )) by {
            if other != id {
                assert(after.contains(queued_key(other)) == store.contains(queued_key(other)));
                assert(after.contains(running_key(other)) == store.contains(running_key(other)));
            }
        }
        assert forall|q: u8, other: Seq<u8>| after.contains(#[trigger] index_key(q, other)) implies after.contains(
            queued_key(other),
        ) by {
            if other != id {
                assert(store.contains(index_key(q, other)));
                assert(store.contains(queued_key(other)));
            }
        }
        assert forall|p: u8, q: u8, other: Seq<u8>|
            after.contains(#[trigger] index_key(p, other)) && after.contains(
                #[trigger] index_key(q, other),
            ) implies p == q by {
            if other != id {
                assert(store.contains(index_key(p, other)));
                assert(store.contains(index_key(q, other)));
            }
        }
    }
}

/// What ending a task does to the store.
///
/// The transaction is applied if and only if the running row is still at
/// the revision at which it was read. Applied, it leaves nothing of the
/// task; refused, it leaves the store as it was. Either way the invariants
/// of the data model hold afterwards, and no other task is touched.
pub proof fn lemma_finish(store: Store, key: TaskKey, revision: Revision)
    requires
        consistent(store),
        key.state == TaskState::Running,
        revision.0 > 0,
    ensures
        ({
            let plan = finish_plan(key, revision);
            let after = store.commit(plan);
            &&& consistent(after)
            &&& same_elsewhere(store, after, set![running_key(key.id@)])
            &&& store.respond(plan).succeeded == store.succeeds(plan)
            &&& store.succeeds(plan) <==> store.mod_revision(running_key(key.id@)) == revision.0
            &&& store.succeeds(plan) ==> absent(after, key.id@)
            &&& !store.succeeds(plan) ==> after == store
        }),
{
    let plan = finish_plan(key, revision);
    let after = store.commit(plan);
    let id = key.id@;
    let at = store.revision + 1;
    let a = OpView::Delete { key: running_key(id) };
    lemma_key_parts();
    lemma_apply_one(store.rows, a, at);
    assert(plan.compares[0] == CompareView {
        key: running_key(id),
        mod_revision: revision.0 as int,
    });
    assert(!(plan.operations[0] is Get));
    lemma_commit_well_formed(store, plan);
    if store.succeeds(plan) {
        assert(after.rows == store.rows.remove(running_key(id)));
        assert(store.contains(running_key(id)));
        assert(!store.contains(queued_key(id)));
        assert forall|q: u8| !after.contains(#[trigger] index_key(q, id)) by {
            if store.contains(index_key(q, id)) {
                assert(store.contains(queued_key(id)));
            }
        }
        assert forall|other: Seq<u8>| after.contains(#[trigger] queued_key(other)) implies indexed(
            after,
            other,
        ) by {
            assert(indexed(store, other));
            let q = choose|q: u8| store.contains(#[trigger] index_key(q, other));
            assert(after.contains(index_key(q, other)));
        }
        assert forall|q: u8, other: Seq<u8>| after.contains(#[trigger] index_key(q, other)) implies after.contains(
            queued_key(other),
        ) by {
            assert(store.contains(index_key(q, other)));
            assert(store.contains(queued_key(other)));
        }
    }
}

/// What cancelling a task does to the store: the transaction is never
/// refused, it leaves nothing of the task and touches no other, and the
/// invariants of the data model hold afterwards.
///
/// `found` is what the lookup before the transaction found, and the store
/// must still hold the task as it was found: listed in the feed under the
/// priority of `found` if `found` is queued, and not queued if `found` is
/// running.
pub proof fn lemma_cancel(store: Store, found: Task)
    requires
        consistent(store),
        found.key.state == TaskState::Queued ==> listed_as(store, found),
        found.key.state == TaskState::Running ==> !store.contains(queued_key(found.key.id@)),
    ensures
        ({
            let plan = cancel_plan(found);
            let after = store.commit(plan);
            &&& store.succeeds(plan)
            &&& consistent(after)
            &&& same_elsewhere(store, after, keys_of(found.value.priority.0, found.key.id@))
            &&& absent(after, found.key.id@)
        }),
{
    let plan = cancel_plan(found);
    let after = store.commit(plan);
    let id = found.key.id@;
    let priority = found.value.priority.0;
    let at = store.revision + 1;
    let a = OpView::Delete { key: queued_key(id) };
    let b = OpView::Delete { key: running_key(id) };
    let c = OpView::Delete { key: index_key(priority, id) };
    lemma_key_parts();
    lemma_apply_two(store.rows, a, b, at);
    lemma_apply_ops_push(store.rows, seq![a, b], c, at);
    assert(!(plan.operations[0] is Get));
    lemma_commit_well_formed(store, plan);
    let rows = store.rows.remove(queued_key(id)).remove(running_key(id));
    assert(after.rows == if found.key.state == TaskState::Queued {
        rows.remove(index_key(priority, id))
    } else {
        rows
    });
    assert forall|q: u8| !after.contains(#[trigger] index_key(q, id)) by {
        if store.contains(index_key(q, id)) {
            assert(store.contains(queued_key(id)));
            assert(store.contains(index_key(priority, id)));
            assert(q == priority);
        }
    }
    assert forall|other: Seq<u8>| after.contains(#[trigger] queued_key(other)) implies indexed(
        after,
        other,
    ) by {
        assert(indexed(store, other));
        let q = choose|q: u8| store.contains(#[trigger] index_key(q, other));
        assert(after.contains(index_key(q, other)));
    }
    assert forall|q: u8, other: Seq<u8>| after.contains(#[trigger] index_key(q, other)) implies after.contains(
        queued_key(other),
    ) by {
        assert(store.contains(index_key(q, other)));
        assert(store.contains(queued_key(other)));
    }
}

/// Reads leave the rows as they are.
proof fn lemma_apply_reads(rows: Map<Seq<u8>, Row>, ops: Seq<OpView>, at: int)
    requires
        forall|i: int| 0 <= i < ops.len() ==> (#[trigger] ops[i]) is Get,
    ensures
        apply_ops(rows, ops, at) == rows,
    decreases ops.len(),
{
    if ops.len() > 0 {
        lemma_apply_reads(rows, ops.drop_last(), at);
    }
}

/// The row that a lookup hands out for what is stored under `key`.
pub open spec fn row_at(store: Store, key: TaskKey) -> TaskRowView {
    TaskRowView {
        key,
        value: store.rows[key.encoding()].value,
        revision: store.rows[key.encoding()].mod_revision,
    }
}

/// What a lookup under both states finds in a consistent store: the queued
/// row, or the running row, or nothing; never an error. The lookup changes
/// nothing.
pub proof fn lemma_find(store: Store, id: crate::task::TaskId)
    requires
        consistent(store),
    ensures
        ({
            let plan = find_plan(id@, seq![TaskState::Queued, TaskState::Running]);
            let queued = TaskKey { state: TaskState::Queued, id };
            let running = TaskKey { state: TaskState::Running, id };
            &&& store.succeeds(plan)
            &&& store.commit(plan) == store
            &&& find_outcome(store.respond(plan)) == if store.contains(queued_key(id@)) {
                Ok::<Option<TaskRowView>, OpsError>(Some(row_at(store, queued)))
            } else if store.contains(running_key(id@)) {
                Ok::<Option<TaskRowView>, OpsError>(Some(row_at(store, running)))
            } else {
                Ok::<Option<TaskRowView>, OpsError>(None)
            }
        }),
{
    let plan = find_plan(id@, seq![TaskState::Queued, TaskState::Running]);
    let queued = TaskKey { state: TaskState::Queued, id };
    let running = TaskKey { state: TaskState::Running, id };
    let at = store.revision + 1;
    let response = store.respond(plan);
    let ops = plan.operations;
    assert(ops.len() == 2);
    assert(ops[0] == OpView::Get { key: queued_key(id@) });
    assert(ops[1] == OpView::Get { key: running_key(id@) });
    assert(!plan.writes());
    lemma_apply_reads(store.rows, ops.take(1), at);
    lemma_apply_reads(store.rows, ops.take(2), at);
    let r0 = OpResponseView::Get { kvs: read_key(store.rows, queued_key(id@)) };
    let r1 = OpResponseView::Get { kvs: read_key(store.rows, running_key(id@)) };
    assert(response.op_responses =~= seq![r0, r1]);
    assert(seq![r0, r1].drop_last() =~= seq![r0]);
    assert(seq![r0].drop_last() =~= seq![]);
    assert(found_rows(seq![]) =~= seq![]);
    assert(found_rows(seq![r0]) =~= read_key(store.rows, queued_key(id@))) by {
        assert(found_rows(seq![r0]) == found_rows(seq![r0].drop_last()) + read_key(
            store.rows,
            queued_key(id@),
        ));
    }
    assert(found_rows(seq![r0, r1]) =~= read_key(store.rows, queued_key(id@)) + read_key(
        store.rows,
        running_key(id@),
    ));
    assert(!(store.contains(queued_key(id@)) && store.contains(running_key(id@))));
    crate::task::lemma_task_key_round_trip(queued);
    crate::task::lemma_task_key_round_trip(running);
}

/// Once a task was ended, cancelling it does nothing: the lookup that
/// cancelling starts with finds no row, so no transaction follows and the
/// answer is `None`.
pub proof fn lemma_finish_then_cancel(store: Store, key: TaskKey, revision: Revision)
    requires
        consistent(store),
        key.state == TaskState::Running,
        revision.0 > 0,
        store.succeeds(finish_plan(key, revision)),
    ensures
        ({
            let after = store.commit(finish_plan(key, revision));
            let lookup = find_plan(key.id@, seq![TaskState::Queued, TaskState::Running]);
            &&& find_outcome(after.respond(lookup)) == Ok::<Option<TaskRowView>, OpsError>(None)
            &&& after.commit(lookup) == after
        }),
{
    lemma_finish(store, key, revision);
    lemma_find(store.commit(finish_plan(key, revision)), key.id);
}

/// Once a task was cancelled, every later attempt to record progress on it
/// or to end it is refused and reports `None`, whatever revision it
/// carries, and changes nothing; and a second cancellation finds nothing.
pub proof fn lemma_cancel_then_update(
    store: Store,
    found: Task,
    next: Task,
    revision: Revision,
    value: Seq<u8>,
)
    requires
        consistent(store),
        found.key.state == TaskState::Queued ==> listed_as(store, found),
        found.key.state == TaskState::Running ==> !store.contains(queued_key(found.key.id@)),
        next.key.id == found.key.id,
        revision.0 > 0,
    ensures
        ({
            let after = store.commit(cancel_plan(found));
            let progress = progress_plan(next, revision, value);
            let finish = finish_plan(next.key, revision);
            let lookup = find_plan(found.key.id@, seq![TaskState::Queued, TaskState::Running]);
            &&& !after.succeeds(progress)
            &&& update_outcome(after.respond(progress)) == Ok::<Option<int>, OpsError>(None)
            &&& after.commit(progress) == after
            &&& !after.succeeds(finish)
            &&& !after.respond(finish).succeeded
            &&& after.commit(finish) == after
            &&& find_outcome(after.respond(lookup)) == Ok::<Option<TaskRowView>, OpsError>(None)
        }),
{
    let after = store.commit(cancel_plan(found));
    let progress = progress_plan(next, revision, value);
    let finish = finish_plan(next.key, revision);
    lemma_cancel(store, found);
    lemma_find(after, found.key.id);
    assert(!after.contains(next.key.encoding())) by {
        if next.key.state == TaskState::Queued {
        } else {
        }
    }
    assert(progress.compares[0] == CompareView {
        key: next.key.encoding(),
        mod_revision: revision.0 as int,
    });
    assert(finish.compares[0] == CompareView {
        key: next.key.encoding(),
        mod_revision: revision.0 as int,
    });
}

/// One attempt to take a task: who tries, when, and the bytes to store.
pub struct Attempt {
    pub name: WorkerName,
    pub now: Timestamp,
    pub value: Seq<u8>,
}

/// The transaction of an attempt to take `task` as read at `revision`.
pub open spec fn attempt_plan(task: Task, revision: Revision, attempt: Attempt) -> TxnView {
    acquire_plan(task.key, task.acquired(attempt.name, attempt.now), revision, attempt.value)
}

/// The store after the first `n` of the `attempts` were sent to it, one
/// after another.
pub open spec fn after_attempts(
    store: Store,
    task: Task,
    revision: Revision,
    attempts: Seq<Attempt>,
    n: int,
) -> Store
    decreases n,
{
    if n <= 0 {
        store
    } else {
        after_attempts(store, task, revision, attempts, n - 1).commit(
            attempt_plan(task, revision, attempts[n - 1]),
        )
    }
}

/// Whether the attempt at place `i` wins the task: the store applies its
/// transaction, so the operation reports `Some`.
pub open spec fn attempt_wins(
    store: Store,
    task: Task,
    revision: Revision,
    attempts: Seq<Attempt>,
    i: int,
) -> bool {
    after_attempts(store, task, revision, attempts, i).succeeds(
        attempt_plan(task, revision, attempts[i]),
    )
}

/// However many nodes try to take a task that they all read at the same
/// revision, and in whatever order the store receives them, the first
/// attempt wins and every other is refused.
pub proof fn lemma_acquire_exclusive(
    store: Store,
    task: Task,
    revision: Revision,
    attempts: Seq<Attempt>,
)
    requires
        store.well_formed(),
        revision.0 > 0,
        store.mod_revision(task.key.encoding()) == revision.0,
    ensures
        forall|i: int|
            0 <= i < attempts.len() ==> (#[trigger] attempt_wins(
                store,
                task,
                revision,
                attempts,
                i,
            ) <==> i == 0),
{
    assert forall|i: int| 0 <= i < attempts.len() implies (#[trigger] attempt_wins(
        store,
        task,
        revision,
        attempts,
        i,
    ) <==> i == 0) by {
        lemma_attempts(store, task, revision, attempts, i);
    }
}

/// After the first attempt, the row that the attempts are guarded by is
/// gone or stands at a later revision, and stays so.
proof fn lemma_attempts(store: Store, task: Task, revision: Revision, attempts: Seq<Attempt>, n: int)
    requires
        store.well_formed(),
        revision.0 > 0,
        store.mod_revision(task.key.encoding()) == revision.0,
        0 <= n < attempts.len(),
    ensures
        attempt_wins(store, task, revision, attempts, n) <==> n == 0,
        ({
            let after = after_attempts(store, task, revision, attempts, n + 1);
            &&& after.well_formed()
            &&& after.mod_revision(task.key.encoding()) != revision.0
        }),
    decreases n,
{
    let key = task.key.encoding();
    let before = after_attempts(store, task, revision, attempts, n);
    let attempt = attempts[n];
    let next = task.acquired(attempt.name, attempt.now);
    let plan = attempt_plan(task, revision, attempt);
    let a = OpView::Delete { key };
    let b = OpView::Delete { key: index_key(next.value.priority.0, next.key.id@) };
    let c = OpView::Put { key: next.key.encoding(), value: attempt.value };
    if n > 0 {
        lemma_attempts(store, task, revision, attempts, n - 1);
    }
    lemma_key_parts();
    lemma_update_rows(before, revision, task.key, next.key, seq![a, b, c]);
    lemma_apply_three(before.rows, a, b, c, before.revision + 1);
    assert(seq![a, b, c][0] == a);
    lemma_commit_well_formed(before, plan);
    if n == 0 {
        assert(before == store);
        assert(store.contains(key));
    }
}

/// One recorded step of progress: how much work was done, and when.
pub struct Step {
    pub progress: WorkTime,
    pub now: Timestamp,
}

/// The work done in all of `steps`, in nanoseconds.
pub open spec fn total_progress(steps: Seq<Step>) -> int
    decreases steps.len(),
{
    if steps.len() == 0 {
        0
    } else {
        total_progress(steps.drop_last()) + steps.last().progress.nanos
    }
}

/// The task after `steps` were recorded on it, one after another.
pub open spec fn after_steps(task: Task, steps: Seq<Step>) -> Task
    decreases steps.len(),
{
    if steps.len() == 0 {
        task
    } else {
        after_steps(task, steps.drop_last()).progressed(steps.last().progress, steps.last().now)
    }
}

/// Whether each of `steps` records no more work than the task still owes
/// when the step is taken.
pub open spec fn within_remaining(task: Task, steps: Seq<Step>) -> bool
    decreases steps.len(),
{
    steps.len() == 0 || (within_remaining(task, steps.drop_last()) && steps.last().progress.nanos
        <= after_steps(task, steps.drop_last()).value.remaining.nanos)
}

/// Progress adds up: after any number of recorded steps the task owes what
/// it owed before, less the work of all steps. For a task that started with
/// all of its duration owed, the work recorded is the duration less what is
/// still owed. Nothing but the work owed and the time stamp changes.
pub proof fn lemma_progress_adds_up(task: Task, steps: Seq<Step>)
    requires
        within_remaining(task, steps),
    ensures
        ({
            let after = after_steps(task, steps);
            &&& after.value.remaining.nanos == task.value.remaining.nanos - total_progress(steps)
            &&& 0 <= total_progress(steps) <= task.value.remaining.nanos
            &&& task.value.remaining == task.value.duration ==> total_progress(steps)
                == after.value.duration.nanos - after.value.remaining.nanos
            &&& after.key == task.key
            &&& after.value.duration == task.value.duration
            &&& after.value.priority == task.value.priority
            &&& after.value.assignee == task.value.assignee
            &&& after.value.created_at == task.value.created_at
            &&& task.well_formed() ==> after.well_formed()
        }),
    decreases steps.len(),
{
    if steps.len() > 0 {
        lemma_progress_adds_up(task, steps.drop_last());
    }
}

/// The work owed never grows: a task owes no more after further steps than
/// it owed after the first `n` of them, and strictly less if one of the
/// further steps records any work at all.
pub proof fn lemma_remaining_decreases(task: Task, steps: Seq<Step>, n: int)
    requires
        within_remaining(task, steps),
        0 <= n <= steps.len(),
    ensures
        within_remaining(task, steps.take(n)),
        after_steps(task, steps).value.remaining.nanos <= after_steps(
            task,
            steps.take(n),
        ).value.remaining.nanos,
        (exists|i: int| n <= i < steps.len() && (#[trigger] steps[i]).progress.nanos > 0)
            ==> after_steps(task, steps).value.remaining.nanos < after_steps(
            task,
            steps.take(n),
        ).value.remaining.nanos,
    decreases steps.len() - n,
{
    if n == steps.len() {
        assert(steps.take(n) =~= steps);
    } else {
        let front = steps.drop_last();
        assert(front.take(n) =~= steps.take(n));
        lemma_remaining_decreases(task, front, n);
        lemma_progress_adds_up(task, front);
        lemma_progress_adds_up(task, steps);
        if exists|i: int| n <= i < steps.len() && (#[trigger] steps[i]).progress.nanos > 0 {
            let i = choose|i: int| n <= i < steps.len() && (#[trigger] steps[i]).progress.nanos > 0;
            if i < steps.len() - 1 {
                assert(front[i] == steps[i]);
            }
        }
    }
}

/// A listing of the feed that parses has one entry for each row, and each
/// entry is what the key of its row spells.
pub proof fn lemma_parse_priorities_each(kvs: Seq<KeyValueView>)
    ensures
        parse_priorities(kvs) matches Ok(keys) ==> {
            &&& keys.len() == kvs.len()
            &&& forall|i: int|
                0 <= i < kvs.len() ==> parse_priority_key(kvs[i].key) == Ok::<
                    PriorityKey,
                    KeyError,
                >(#[trigger] keys[i])
        },
    decreases kvs.len(),
{
    if kvs.len() > 0 {
        lemma_parse_priorities_each(kvs.drop_last());
    }
}

/// A listing of task rows that parses has one row for each row read, under
/// the key that the row's key spells, with the row's bytes and revision.
pub proof fn lemma_parse_task_rows_each(kvs: Seq<KeyValueView>)
    ensures
        parse_task_rows(kvs) matches Ok(rows) ==> {
            &&& rows.len() == kvs.len()
            &&& forall|i: int|
                0 <= i < kvs.len() ==> {
                    &&& parse_task_key(kvs[i].key) == Ok::<TaskKey, KeyError>((#[trigger] rows[i]).key)
                    &&& rows[i].value == kvs[i].value
                    &&& rows[i].revision == kvs[i].mod_revision
                }
        },
    decreases kvs.len(),
{
    if kvs.len() > 0 {
        lemma_parse_task_rows_each(kvs.drop_last());
    }
}

/// A listing under a limit hands out no more than the limit: whatever the
/// store may answer to a request with a positive limit, the tasks or the
/// feed entries read from the answer are no more than that limit.
pub proof fn lemma_listing_within_limit(
    store: Store,
    request: RangeRequestView,
    kvs: Seq<KeyValueView>,
)
    requires
        store.may_answer(request, kvs),
        request.limit > 0,
    ensures
        parse_task_rows(kvs) matches Ok(rows) ==> rows.len() <= request.limit,
        parse_priorities(kvs) matches Ok(keys) ==> keys.len() <= request.limit,
{
    lemma_parse_task_rows_each(kvs);
    lemma_parse_priorities_each(kvs);
}

/// The feed is read in the order in which tasks are to be taken: in a
/// listing by key, an entry never follows one of a larger priority
/// number, and among equal priorities the identifier decides.
pub proof fn lemma_feed_listing_in_order(
    store: Store,
    request: RangeRequestView,
    kvs: Seq<KeyValueView>,
    i: int,
    j: int,
)
    requires
        store.may_answer(request, kvs),
        request.sort == SortOrder::KeyAscending,
        parse_priorities(kvs) is Ok,
        0 <= i < j < kvs.len(),
    ensures
        ({
            let keys = parse_priorities(kvs)->Ok_0;
            keys[i].priority.0 < keys[j].priority.0 || (keys[i].priority.0 == keys[j].priority.0
                && precedes(keys[i].id@, keys[j].id@))
        }),
{
    let keys = parse_priorities(kvs)->Ok_0;
    lemma_parse_priorities_each(kvs);
    lemma_priority_key_parse_exact(kvs[i].key);
    lemma_priority_key_parse_exact(kvs[j].key);
    assert(parse_priority_key(kvs[i].key) == Ok::<PriorityKey, KeyError>(keys[i]));
    assert(parse_priority_key(kvs[j].key) == Ok::<PriorityKey, KeyError>(keys[j]));
    assert(precedes(kvs[i].key, kvs[j].key));
    lemma_feed_order(keys[i], keys[j]);
}

} // verus!
