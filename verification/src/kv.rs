//! The key-value store as this crate sees it: the requests it is sent, the
//! answers it gives, and a mathematical model of what a transaction does.
//!
//! The store keeps, for every key, a value and the revision of the last write
//! to that key. A transaction names comparisons and operations; where every
//! comparison holds, the operations are applied in order and as one step.
//! The caller carries requests to the store and answers back; nothing here
//! performs I/O.

use vstd::prelude::*;

verus! {

/// The revision at which a row was last written, as the store reported it
/// with a read. A row that exists has a positive revision.
#[derive(Clone, Copy, Debug, PartialEq, Eq, Structural)]
pub struct Revision(pub i64);

/// One stored row as the store reports it.
#[derive(Debug, PartialEq, Eq)]
pub struct KeyValue {
    pub key: Vec<u8>,
    pub value: Vec<u8>,
    pub mod_revision: i64,
}

/// The demand that `key` was last written at `mod_revision`. A key that is
/// not in the store counts as written at revision 0.
#[derive(Debug, PartialEq, Eq)]
pub struct Compare {
    pub key: Vec<u8>,
    pub mod_revision: i64,
}

/// One operation of a transaction.
#[derive(Debug, PartialEq, Eq)]
pub enum TxnOp {
    Put { key: Vec<u8>, value: Vec<u8> },
    Delete { key: Vec<u8> },
    Get { key: Vec<u8> },
}

/// A transaction: the operations are applied, in order, if and only if
/// every comparison holds.
#[derive(Debug, PartialEq, Eq)]
pub struct Txn {
    pub compares: Vec<Compare>,
    pub operations: Vec<TxnOp>,
}

/// The store's answer to one operation of a transaction.
#[derive(Debug, PartialEq, Eq)]
pub enum TxnOpResponse {
    Put,
    Get { kvs: Vec<KeyValue> },
    Delete,
    /// The answer to a nested transaction; this crate sends none.
    Txn,
}

/// The store's answer to a transaction.
#[derive(Debug, PartialEq, Eq)]
pub struct TxnResponse {
    pub succeeded: bool,
    pub op_responses: Vec<TxnOpResponse>,
}

/// The order in which a range read hands out its rows.
#[derive(Clone, Copy, Debug, PartialEq, Eq, Structural)]
pub enum SortOrder {
    /// Whatever order the store chooses.
    Unsorted,
    /// By key, smallest first.
    KeyAscending,
}

/// A read of every row whose key starts with `prefix`, cut off after
/// `limit` rows.
#[derive(Debug, PartialEq, Eq)]
pub struct RangeRequest {
    pub prefix: Vec<u8>,
    pub limit: i64,
    pub sort: SortOrder,
}

/// A stored row as the store reports it, in mathematical form.
pub struct KeyValueView {
    pub key: Seq<u8>,
    pub value: Seq<u8>,
    pub mod_revision: int,
}

/// A comparison, in mathematical form.
pub struct CompareView {
    pub key: Seq<u8>,
    pub mod_revision: int,
}

/// An operation of a transaction, in mathematical form.
pub enum OpView {
    Put { key: Seq<u8>, value: Seq<u8> },
    Delete { key: Seq<u8> },
    Get { key: Seq<u8> },
}

/// A transaction, in mathematical form.
pub struct TxnView {
    pub compares: Seq<CompareView>,
    pub operations: Seq<OpView>,
}

/// The answer to one operation, in mathematical form.
pub enum OpResponseView {
    Put,
    Get { kvs: Seq<KeyValueView> },
    Delete,
    Txn,
}

/// The answer to a transaction, in mathematical form.
pub struct TxnResponseView {
    pub succeeded: bool,
    pub op_responses: Seq<OpResponseView>,
}

/// A range read, in mathematical form.
pub struct RangeRequestView {
    pub prefix: Seq<u8>,
    pub limit: int,
    pub sort: SortOrder,
}

impl View for KeyValue {
    type V = KeyValueView;

    open spec fn view(&self) -> KeyValueView {
        KeyValueView { key: self.key@, value: self.value@, mod_revision: self.mod_revision as int }
    }
}

impl View for Compare {
    type V = CompareView;

    open spec fn view(&self) -> CompareView {
        CompareView { key: self.key@, mod_revision: self.mod_revision as int }
    }
}

impl View for TxnOp {
    type V = OpView;

    open spec fn view(&self) -> OpView {
        match *self {
            TxnOp::Put { key, value } => OpView::Put { key: key@, value: value@ },
            TxnOp::Delete { key } => OpView::Delete { key: key@ },
            TxnOp::Get { key } => OpView::Get { key: key@ },
        }
    }
}

/// The views of the rows of `kvs`, in order.
pub open spec fn kvs_view(kvs: Seq<KeyValue>) -> Seq<KeyValueView> {
    Seq::new(kvs.len(), |i: int| kvs[i]@)
}

/// The views of the operations of `ops`, in order.
pub open spec fn ops_view(ops: Seq<TxnOp>) -> Seq<OpView> {
    Seq::new(ops.len(), |i: int| ops[i]@)
}

impl TxnView {
    /// Whether one of the operations is a write or a removal.
    pub open spec fn writes(self) -> bool {
        exists|i: int| 0 <= i < self.operations.len() && !((#[trigger] self.operations[i]) is Get)
    }
}

impl View for Txn {
    type V = TxnView;

    open spec fn view(&self) -> TxnView {
        TxnView {
            compares: Seq::new(self.compares@.len(), |i: int| self.compares@[i]@),
            operations: ops_view(self.operations@),
        }
    }
}

impl View for TxnOpResponse {
    type V = OpResponseView;

    open spec fn view(&self) -> OpResponseView {
        match *self {
            TxnOpResponse::Put => OpResponseView::Put,
            TxnOpResponse::Get { kvs } => OpResponseView::Get { kvs: kvs_view(kvs@) },
            TxnOpResponse::Delete => OpResponseView::Delete,
            TxnOpResponse::Txn => OpResponseView::Txn,
        }
    }
}

impl View for TxnResponse {
    type V = TxnResponseView;

    open spec fn view(&self) -> TxnResponseView {
        TxnResponseView {
            succeeded: self.succeeded,
            op_responses: Seq::new(self.op_responses@.len(), |i: int| self.op_responses@[i]@),
        }
    }
}

impl View for RangeRequest {
    type V = RangeRequestView;

    open spec fn view(&self) -> RangeRequestView {
        RangeRequestView { prefix: self.prefix@, limit: self.limit as int, sort: self.sort }
    }
}

/// What the store keeps under one key.
pub struct Row {
    pub value: Seq<u8>,
    pub mod_revision: int,
}

/// The contents of the store at one moment.
pub struct Store {
    pub rows: Map<Seq<u8>, Row>,
    /// The revision of the last transaction that was applied.
    pub revision: int,
}

/// `rows` after `op` was applied at revision `at`.
pub open spec fn apply_op(rows: Map<Seq<u8>, Row>, op: OpView, at: int) -> Map<Seq<u8>, Row> {
    match op {
        OpView::Put { key, value } => rows.insert(key, Row { value, mod_revision: at }),
        OpView::Delete { key } => rows.remove(key),
        OpView::Get { key } => rows,
    }
}

/// `rows` after the operations of `ops` were applied in order, all at
/// revision `at`.
pub open spec fn apply_ops(rows: Map<Seq<u8>, Row>, ops: Seq<OpView>, at: int) -> Map<
    Seq<u8>,
    Row,
>
    decreases ops.len(),
{
    if ops.len() == 0 {
        rows
    } else {
        apply_op(apply_ops(rows, ops.drop_last(), at), ops.last(), at)
    }
}

/// What a read of `key` finds in `rows`: the row, or nothing.
pub open spec fn read_key(rows: Map<Seq<u8>, Row>, key: Seq<u8>) -> Seq<KeyValueView> {
    if rows.contains_key(key) {
        seq![KeyValueView { key, value: rows[key].value, mod_revision: rows[key].mod_revision }]
    } else {
        seq![]
    }
}

/// The answer to `op` when it meets `rows`.
pub open spec fn answer_op(rows: Map<Seq<u8>, Row>, op: OpView) -> OpResponseView {
    match op {
        OpView::Put { key, value } => OpResponseView::Put,
        OpView::Delete { key } => OpResponseView::Delete,
        OpView::Get { key } => OpResponseView::Get { kvs: read_key(rows, key) },
    }
}

impl Store {
    /// Every row was written at a revision that the store has reached, and
    /// none at revision 0.
    pub open spec fn well_formed(self) -> bool {
        &&& self.revision >= 0
        &&& forall|key: Seq<u8>| #[trigger]
            self.rows.contains_key(key) ==> 0 < self.rows[key].mod_revision <= self.revision
    }

    /// Whether the store holds a row under `key`.
    pub open spec fn contains(self, key: Seq<u8>) -> bool {
        self.rows.contains_key(key)
    }

    /// The revision of the last write to `key`; 0 for a key that is absent.
    pub open spec fn mod_revision(self, key: Seq<u8>) -> int {
        if self.rows.contains_key(key) {
            self.rows[key].mod_revision
        } else {
            0
        }
    }

    /// Whether `compare` holds: its key was last written at its revision.
    pub open spec fn holds(self, compare: CompareView) -> bool {
        self.mod_revision(compare.key) == compare.mod_revision
    }

    /// Whether the store would apply `txn`: every comparison holds.
    pub open spec fn succeeds(self, txn: TxnView) -> bool {
        forall|i: int| 0 <= i < txn.compares.len() ==> self.holds(#[trigger] txn.compares[i])
    }

    /// The store after `txn` was sent to it. A transaction that is applied
    /// and writes takes the next revision, and every row it writes carries
    /// it. One that is refused, or only reads, leaves the store as it was.
    pub open spec fn commit(self, txn: TxnView) -> Store {
        if self.succeeds(txn) && txn.writes() {
            Store {
                rows: apply_ops(self.rows, txn.operations, self.revision + 1),
                revision: self.revision + 1,
            }
        } else {
            self
        }
    }

    /// The store's answer to `txn`. Each operation is answered from the rows
    /// as the operations before it left them.
    pub open spec fn respond(self, txn: TxnView) -> TxnResponseView {
        if self.succeeds(txn) {
            TxnResponseView {
                succeeded: true,
                op_responses: Seq::new(
                    txn.operations.len(),
                    |i: int|
                        answer_op(
                            apply_ops(self.rows, txn.operations.take(i + 1), self.revision + 1),
                            txn.operations[i],
                        ),
                ),
            }
        } else {
            TxnResponseView { succeeded: false, op_responses: seq![] }
        }
    }

    /// Whether `kvs` is an answer that the store may give to `request`: rows
    /// of the store under the prefix, none twice, no more than the limit
    /// (a limit of 0 or less is none), and in key order where that is asked
    /// for.
    pub open spec fn may_answer(self, request: RangeRequestView, kvs: Seq<KeyValueView>) -> bool {
        &&& forall|i: int|
            0 <= i < kvs.len() ==> {
                let kv = #[trigger] kvs[i];
                &&& self.rows.contains_key(kv.key)
                &&& kv.value == self.rows[kv.key].value
                &&& kv.mod_revision == self.rows[kv.key].mod_revision
                &&& request.prefix.is_prefix_of(kv.key)
            }
        &&& forall|i: int, j: int|
            0 <= i < j < kvs.len() ==> (#[trigger] kvs[i]).key != (#[trigger] kvs[j]).key
        &&& request.limit > 0 ==> kvs.len() <= request.limit
        &&& request.sort == SortOrder::KeyAscending ==> forall|i: int, j: int|
            0 <= i < j < kvs.len() ==> crate::task::precedes(
                (#[trigger] kvs[i]).key,
                (#[trigger] kvs[j]).key,
            )
    }
}

/// A well-formed store stays well-formed whatever transaction it is sent.
pub proof fn lemma_commit_well_formed(store: Store, txn: TxnView)
    requires
        store.well_formed(),
    ensures
        store.commit(txn).well_formed(),
        store.commit(txn).revision >= store.revision,
{
    if store.succeeds(txn) && txn.writes() {
        let after = store.commit(txn);
        assert forall|key: Seq<u8>| #[trigger] after.rows.contains_key(key) implies 0
            < after.rows[key].mod_revision <= after.revision by {
            lemma_apply_ops_row(store.rows, txn.operations, store.revision + 1, key);
            if store.rows.contains_key(key) {
                assert(0 < store.rows[key].mod_revision <= store.revision);
            }
        }
    }
}

/// After operations were applied at revision `at`, a row is either one that
/// was there before, unchanged, or one written at `at`.
pub proof fn lemma_apply_ops_row(rows: Map<Seq<u8>, Row>, ops: Seq<OpView>, at: int, key: Seq<u8>)
    ensures
        apply_ops(rows, ops, at).contains_key(key) ==> apply_ops(rows, ops, at)[key].mod_revision
            == at || (rows.contains_key(key) && apply_ops(rows, ops, at)[key] == rows[key]),
    decreases ops.len(),
{
    if ops.len() > 0 {
        lemma_apply_ops_row(rows, ops.drop_last(), at, key);
    }
}

} // verus!
