//! Tasks, their keys in the store, and the byte layout of those keys.
//!
//! A task row lives under `['t', state, id(16)]`, where `state` is `'q'` or
//! `'r'`. A queued task is also listed under `['p', priority, id(16)]`, so
//! that the store's key order is the order in which workers are fed.

use vstd::prelude::*;
use vstd::string::StringExecFns;

use crate::name::WorkerName;
use crate::time::{Timestamp, WorkTime};

verus! {

broadcast use vstd::array::group_array_axioms;

/// Number of bytes in a task identifier.
pub const ID_LEN: usize = 16;

/// Number of bytes in a task key and in a priority key.
pub const KEY_LEN: usize = 18;

/// First byte of every task row key: `'t'`.
pub const TASK_PREFIX: u8 = 0x74;

/// First byte of every priority-index key: `'p'`.
pub const PRIORITY_PREFIX: u8 = 0x70;

/// State byte of a queued task: `'q'`.
pub const QUEUED_BYTE: u8 = 0x71;

/// State byte of a running task: `'r'`.
pub const RUNNING_BYTE: u8 = 0x72;

/// Priority given to a task that names none.
pub const DEFAULT_PRIORITY: u8 = 10;

/// Why a byte string is not a key.
#[derive(Clone, Copy, Debug, PartialEq, Eq, Structural)]
pub enum KeyError {
    /// Fewer than two bytes, or the first byte is not the expected prefix.
    UnexpectedPrefix,
    /// The second byte of a task key is neither `'q'` nor `'r'`.
    UnexpectedState,
    /// What follows the first two bytes is not sixteen bytes long.
    InvalidIdLength { found: usize },
}

/// Whether a task waits for a worker or is held by one.
#[derive(Clone, Copy, Debug, PartialEq, Eq, Structural)]
pub enum TaskState {
    Queued,
    Running,
}

/// The byte that stands for a state in a task key.
pub open spec fn state_byte(state: TaskState) -> u8 {
    match state {
        TaskState::Queued => QUEUED_BYTE,
        TaskState::Running => RUNNING_BYTE,
    }
}

/// The state that a byte stands for, if any.
pub open spec fn byte_state(byte: u8) -> Option<TaskState> {
    if byte == QUEUED_BYTE {
        Some(TaskState::Queued)
    } else if byte == RUNNING_BYTE {
        Some(TaskState::Running)
    } else {
        None
    }
}

impl TaskState {
    /// Both states, queued first.
    pub fn variants() -> (all: [TaskState; 2])
        ensures
            all@ == seq![TaskState::Queued, TaskState::Running],
    {
        let all = [TaskState::Queued, TaskState::Running];
        assert(all@ =~= seq![TaskState::Queued, TaskState::Running]);
        all
    }

    /// A new task is queued.
    pub fn default() -> (state: Self)
        ensures
            state == TaskState::Queued,
    {
        TaskState::Queued
    }

    pub fn to_byte(self) -> (byte: u8)
        ensures
            byte == state_byte(self),
    {
        match self {
            TaskState::Queued => QUEUED_BYTE,
            TaskState::Running => RUNNING_BYTE,
        }
    }

    pub fn from_byte(byte: u8) -> (r: Result<Self, KeyError>)
        ensures
            r == match byte_state(byte) {
                Some(state) => Ok::<TaskState, KeyError>(state),
                None => Err(KeyError::UnexpectedState),
            },
    {
        if byte == QUEUED_BYTE {
            Ok(TaskState::Queued)
        } else if byte == RUNNING_BYTE {
            Ok(TaskState::Running)
        } else {
            Err(KeyError::UnexpectedState)
        }
    }

    /// The word used for the state in queries and payloads.
    pub fn as_str(&self) -> (word: &'static str)
        ensures
            word@ == match *self {
                TaskState::Queued => "queued"@,
                TaskState::Running => "running"@,
            },
    {
        match self {
            TaskState::Queued => "queued",
            TaskState::Running => "running",
        }
    }

    /// Reads a state from its word; any other string is no state.
    pub fn from_str(word: &str) -> (r: Option<Self>)
        ensures
            r == if word@ == "queued"@ {
                Some(TaskState::Queued)
            } else if word@ == "running"@ {
                Some(TaskState::Running)
            } else {
                None::<TaskState>
            },
    {
        proof {
            reveal_strlit("queued");
            reveal_strlit("running");
        }
        if str_eq(word, "queued") {
            Some(TaskState::Queued)
        } else if str_eq(word, "running") {
            Some(TaskState::Running)
        } else {
            None
        }
    }
}

/// Whether two strings hold the same characters.
fn str_eq(a: &str, b: &str) -> (same: bool)
    ensures
        same == (a@ == b@),
{
    let n = a.unicode_len();
    if n != b.unicode_len() {
        return false;
    }
    let mut i: usize = 0;
    while i < n
        invariant
            0 <= i <= n,
            n == a@.len(),
            n == b@.len(),
            forall|j: int| 0 <= j < i ==> a@[j] == b@[j],
        decreases n - i,
    {
        if a.get_char(i) != b.get_char(i) {
            return false;
        }
        i += 1;
    }
    assert(a@ =~= b@);
    true
}

/// Urgency of a task: 0 is served first, 255 last.
#[derive(Clone, Copy, Debug, PartialEq, Eq, PartialOrd, Ord, Structural)]
pub struct TaskPriority(pub u8);

impl TaskPriority {
    pub fn default() -> (priority: Self)
        ensures
            priority.0 == DEFAULT_PRIORITY,
    {
        TaskPriority(DEFAULT_PRIORITY)
    }
}

/// The sixteen bytes that identify a task.
#[derive(Clone, Copy, Debug, PartialEq, Eq, PartialOrd, Ord, Hash)]
pub struct TaskId(pub [u8; 16]);

impl View for TaskId {
    type V = Seq<u8>;

    open spec fn view(&self) -> Seq<u8> {
        self.0@
    }
}

/// The marks of a random (version 4) identifier: the high half of byte 6 is
/// 4, and the two high bits of byte 8 are `10`.
pub open spec fn is_random_id(id: Seq<u8>) -> bool {
    &&& id.len() == ID_LEN
    &&& id[6] & 0xf0 == 0x40
    &&& id[8] & 0xc0 == 0x80
}

/// Draws an identifier with `uuid::Uuid::new_v4` and hands out its bytes
/// (`Uuid::into_bytes`). Which identifier comes back is left open; it bears
/// the version and variant marks that `new_v4` sets on every result. uuid
/// panics where the system has no randomness to give.
#[verifier::external_body]
fn random_id() -> (id: TaskId)
    ensures
        is_random_id(id@),
{
    TaskId(uuid::Uuid::new_v4().into_bytes())
}

impl TaskId {
    /// A fresh random identifier.
    pub fn generate() -> (id: Self)
        ensures
            is_random_id(id@),
    {
        random_id()
    }

    /// Sixteen bytes make an identifier; any other number is refused.
    pub fn from_slice(bytes: &[u8]) -> (r: Result<Self, KeyError>)
        ensures
            r is Ok <==> bytes@.len() == ID_LEN,
            match r {
                Ok(id) => id@ == bytes@,
                Err(e) => e == (KeyError::InvalidIdLength { found: bytes@.len() as usize }),
            },
    {
        if bytes.len() != ID_LEN {
            return Err(KeyError::InvalidIdLength { found: bytes.len() });
        }
        let mut id = [0u8;16];
        let mut i: usize = 0;
        while i < ID_LEN
            invariant
                0 <= i <= ID_LEN,
                bytes@.len() == ID_LEN,
                forall|j: int| 0 <= j < i ==> id@[j] == bytes@[j],
            decreases ID_LEN - i,
        {
            id[i] = bytes[i];
            i += 1;
        }
        assert(id@ =~= bytes@);
        Ok(TaskId(id))
    }

    /// Whether the two identifiers hold the same bytes.
    pub fn same(&self, other: &TaskId) -> (same: bool)
        ensures
            same == (*self == *other),
            same == (self@ == other@),
    {
        let mut i: usize = 0;
        while i < ID_LEN
            invariant
                0 <= i <= ID_LEN,
                forall|j: int| 0 <= j < i ==> self@[j] == other@[j],
            decreases ID_LEN - i,
        {
            if self.0[i] != other.0[i] {
                return false;
            }
            i += 1;
        }
        assert(self@ =~= other@);
        assert(self.0 == other.0);
        true
    }
}

/// The two lowercase hexadecimal digits of `byte`, the high one first.
pub open spec fn hex_pair(byte: u8) -> Seq<char> {
    let digits = "0123456789abcdef"@;
    seq![digits[(byte / 16) as int], digits[(byte % 16) as int]]
}

/// The hexadecimal digits of `bytes`, two for each byte, in order.
pub open spec fn hex_text(bytes: Seq<u8>) -> Seq<char>
    decreases bytes.len(),
{
    if bytes.len() == 0 {
        seq![]
    } else {
        hex_text(bytes.drop_last()) + hex_pair(bytes.last())
    }
}

/// The text form of an identifier: its bytes in hexadecimal, in groups of
/// 4, 2, 2, 2 and 6 bytes that hyphens part.
pub open spec fn id_text(id: Seq<u8>) -> Seq<char> {
    hex_text(id.subrange(0, 4)) + seq!['-'] + hex_text(id.subrange(4, 6)) + seq!['-'] + hex_text(
        id.subrange(6, 8),
    ) + seq!['-'] + hex_text(id.subrange(8, 10)) + seq!['-'] + hex_text(id.subrange(10, 16))
}

/// Appends the hexadecimal digits of the bytes of `id` from place `from` up
/// to place `to`.
fn push_hex(text: &mut String, id: &TaskId, from: usize, to: usize)
    requires
        from <= to <= ID_LEN,
    ensures
        final(text)@ == old(text)@ + hex_text(id@.subrange(from as int, to as int)),
{
    let digits = "0123456789abcdef";
    proof {
        reveal_strlit("0123456789abcdef");
    }
    let ghost before = text@;
    let mut i: usize = from;
    assert(id@.subrange(from as int, from as int) =~= seq![]);
    assert(before + hex_text(seq![]) =~= before);
    while i < to
        invariant
            from <= i <= to <= ID_LEN,
            id@.len() == ID_LEN,
            digits@ == "0123456789abcdef"@,
            digits@.len() == 16,
            digits.is_ascii(),
            text@ == before + hex_text(id@.subrange(from as int, i as int)),
        decreases to - i,
    {
        let byte: u8 = id.0[i];
        let high: usize = (byte / 16) as usize;
        let low: usize = (byte % 16) as usize;
        let ghost so_far = text@;
        text.append(digits.substring_ascii(high, high + 1));
        text.append(digits.substring_ascii(low, low + 1));
        proof {
            let done = id@.subrange(from as int, i as int);
            let more = id@.subrange(from as int, i + 1);
            assert(more.drop_last() =~= done);
            assert(more.last() == byte);
            assert(digits@.subrange(high as int, high + 1) + digits@.subrange(low as int, low + 1)
                =~= hex_pair(byte));
            assert(text@ =~= so_far + hex_pair(byte));
            assert(text@ =~= before + hex_text(more));
        }
        i += 1;
    }
}

impl TaskId {
    /// The identifier in its text form: see [`id_text`].
    pub fn to_text(&self) -> (text: String)
        ensures
            text@ == id_text(self@),
    {
        proof {
            reveal_strlit("-");
        }
        let mut text = String::new();
        assert(text@ + hex_text(self@.subrange(0, 4)) =~= hex_text(self@.subrange(0, 4)));
        push_hex(&mut text, self, 0, 4);
        text.append("-");
        push_hex(&mut text, self, 4, 6);
        text.append("-");
        push_hex(&mut text, self, 6, 8);
        text.append("-");
        push_hex(&mut text, self, 8, 10);
        text.append("-");
        push_hex(&mut text, self, 10, 16);
        assert("-"@ =~= seq!['-']);
        text
    }
}

/// Where a task row lives: its state and its identifier.
#[derive(Clone, Copy, Debug, PartialEq, Eq)]
pub struct TaskKey {
    pub state: TaskState,
    pub id: TaskId,
}

/// The bytes of the task key for `state` and `id`.
pub open spec fn task_key_bytes(state: TaskState, id: Seq<u8>) -> Seq<u8> {
    seq![TASK_PREFIX, state_byte(state)] + id
}

/// The bytes of the priority key for `priority` and `id`.
pub open spec fn priority_key_bytes(priority: u8, id: Seq<u8>) -> Seq<u8> {
    seq![PRIORITY_PREFIX, priority] + id
}

/// The first rule that `bytes` breaks as a task key, if it breaks one.
pub open spec fn task_key_error(bytes: Seq<u8>) -> Option<KeyError> {
    if bytes.len() < 2 || bytes[0] != TASK_PREFIX {
        Some(KeyError::UnexpectedPrefix)
    } else if byte_state(bytes[1]) is None {
        Some(KeyError::UnexpectedState)
    } else if bytes.len() != KEY_LEN {
        Some(KeyError::InvalidIdLength { found: (bytes.len() - 2) as usize })
    } else {
        None
    }
}

/// The first rule that `bytes` breaks as a priority key, if it breaks one.
pub open spec fn priority_key_error(bytes: Seq<u8>) -> Option<KeyError> {
    if bytes.len() < 2 || bytes[0] != PRIORITY_PREFIX {
        Some(KeyError::UnexpectedPrefix)
    } else if bytes.len() != KEY_LEN {
        Some(KeyError::InvalidIdLength { found: (bytes.len() - 2) as usize })
    } else {
        None
    }
}

/// What `bytes` say as a task key: the key that encodes to them, or the
/// first rule they break.
pub open spec fn parse_task_key(bytes: Seq<u8>) -> Result<TaskKey, KeyError> {
    match task_key_error(bytes) {
        Some(e) => Err(e),
        None => Ok(choose|key: TaskKey| key.encoding() == bytes),
    }
}

/// What `bytes` say as a priority key: the key that encodes to them, or the
/// first rule they break.
pub open spec fn parse_priority_key(bytes: Seq<u8>) -> Result<PriorityKey, KeyError> {
    match priority_key_error(bytes) {
        Some(e) => Err(e),
        None => Ok(choose|key: PriorityKey| key.encoding() == bytes),
    }
}

/// Copies an identifier to the end of a key under construction.
fn push_id(key: &mut Vec<u8>, id: &TaskId)
    ensures
        final(key)@ == old(key)@ + id@,
{
    let ghost before = key@;
    let mut i: usize = 0;
    while i < ID_LEN
        invariant
            0 <= i <= ID_LEN,
            id@.len() == ID_LEN,
            key@ == before + id@.subrange(0, i as int),
        decreases ID_LEN - i,
    {
        key.push(id.0[i]);
        assert(id@.subrange(0, i as int).push(id@[i as int]) =~= id@.subrange(0, i + 1));
        i += 1;
    }
    assert(id@.subrange(0, ID_LEN as int) =~= id@);
}

impl TaskKey {
    /// The bytes under which the row is stored.
    pub open spec fn encoding(self) -> Seq<u8> {
        task_key_bytes(self.state, self.id@)
    }

    pub fn new(state: TaskState, id: TaskId) -> (key: Self)
        ensures
            key.state == state,
            key.id == id,
    {
        TaskKey { state, id }
    }

    /// The key of a new task: queued, under a fresh random identifier.
    pub fn generate() -> (key: Self)
        ensures
            key.state == TaskState::Queued,
            is_random_id(key.id@),
    {
        TaskKey { state: TaskState::default(), id: TaskId::generate() }
    }

    pub fn encode(&self) -> (bytes: Vec<u8>)
        ensures
            bytes@ == self.encoding(),
    {
        let mut bytes: Vec<u8> = Vec::new();
        bytes.push(TASK_PREFIX);
        bytes.push(self.state.to_byte());
        assert(bytes@ =~= seq![TASK_PREFIX, state_byte(self.state)]);
        push_id(&mut bytes, &self.id);
        bytes
    }

    /// Reads a key back from stored bytes. The prefix is checked first, then
    /// the state byte, then the length of the identifier.
    pub fn decode(bytes: &[u8]) -> (r: Result<Self, KeyError>)
        ensures
            r == parse_task_key(bytes@),
            r matches Ok(key) ==> key.encoding() == bytes@,
    {
        if bytes.len() < 2 || bytes[0] != TASK_PREFIX {
            return Err(KeyError::UnexpectedPrefix);
        }
        let state = match TaskState::from_byte(bytes[1]) {
            Ok(state) => state,
            Err(e) => {
                return Err(e);
            },
        };
        let rest = vstd::slice::slice_subrange(bytes, 2, bytes.len());
        let id = match TaskId::from_slice(rest) {
            Ok(id) => id,
            Err(e) => {
                return Err(e);
            },
        };
        let key = TaskKey { state, id };
        proof {
            assert(key.encoding() =~= bytes@);
            lemma_task_key_unique(key, choose|other: TaskKey| other.encoding() == bytes@);
        }
        Ok(key)
    }
}

/// A queued task's place in the feed: its priority, then its identifier.
#[derive(Clone, Copy, Debug, PartialEq, Eq)]
pub struct PriorityKey {
    pub priority: TaskPriority,
    pub id: TaskId,
}

impl PriorityKey {
    /// The bytes under which the entry is stored.
    pub open spec fn encoding(self) -> Seq<u8> {
        priority_key_bytes(self.priority.0, self.id@)
    }

    pub fn new(priority: TaskPriority, id: TaskId) -> (key: Self)
        ensures
            key.priority == priority,
            key.id == id,
    {
        PriorityKey { priority, id }
    }

    /// The index entry that belongs to `task`.
    pub fn from_task(task: &Task) -> (key: Self)
        ensures
            key.priority == task.value.priority,
            key.id == task.key.id,
    {
        PriorityKey { priority: task.value.priority, id: task.key.id }
    }

    pub fn encode(&self) -> (bytes: Vec<u8>)
        ensures
            bytes@ == self.encoding(),
    {
        let mut bytes: Vec<u8> = Vec::new();
        bytes.push(PRIORITY_PREFIX);
        bytes.push(self.priority.0);
        assert(bytes@ =~= seq![PRIORITY_PREFIX, self.priority.0]);
        push_id(&mut bytes, &self.id);
        bytes
    }

    /// Reads an index entry back from stored bytes. The prefix is checked
    /// first, then the length of the identifier; every priority byte is valid.
    pub fn decode(bytes: &[u8]) -> (r: Result<Self, KeyError>)
        ensures
            r == parse_priority_key(bytes@),
            r matches Ok(key) ==> key.encoding() == bytes@,
    {
        if bytes.len() < 2 || bytes[0] != PRIORITY_PREFIX {
            return Err(KeyError::UnexpectedPrefix);
        }
        let priority = TaskPriority(bytes[1]);
        let rest = vstd::slice::slice_subrange(bytes, 2, bytes.len());
        let id = match TaskId::from_slice(rest) {
            Ok(id) => id,
            Err(e) => {
                return Err(e);
            },
        };
        let key = PriorityKey { priority, id };
        proof {
            assert(key.encoding() =~= bytes@);
            lemma_priority_key_unique(key, choose|other: PriorityKey| other.encoding() == bytes@);
        }
        Ok(key)
    }
}

/// What is stored under a task key.
#[derive(Debug, PartialEq, Eq)]
pub struct TaskValue {
    /// The worker that holds the task; present exactly while it runs.
    pub assignee: Option<WorkerName>,
    /// Work time still owed; never more than `duration`.
    pub remaining: WorkTime,
    pub updated_at: Timestamp,
    pub priority: TaskPriority,
    pub created_at: Timestamp,
    /// Work time asked for when the task was submitted.
    pub duration: WorkTime,
}

impl Clone for TaskValue {
    fn clone(&self) -> (copy: Self)
        ensures
            copy == *self,
    {
        TaskValue {
            assignee: match &self.assignee {
                Some(name) => Some(name.clone()),
                None => None,
            },
            remaining: self.remaining,
            updated_at: self.updated_at,
            priority: self.priority,
            created_at: self.created_at,
            duration: self.duration,
        }
    }
}

impl TaskValue {
    /// The value of a task that was submitted at `now` and never touched.
    pub fn new_at(duration: WorkTime, priority: TaskPriority, now: Timestamp) -> (value: Self)
        ensures
            value == (TaskValue {
                assignee: None,
                remaining: duration,
                updated_at: now,
                priority,
                created_at: now,
                duration,
            }),
    {
        TaskValue {
            duration,
            remaining: duration,
            created_at: now,
            updated_at: now,
            priority,
            assignee: None,
        }
    }

    /// The value of a task that is submitted now, by the system clock.
    pub fn new_with_current_time(duration: WorkTime, priority: TaskPriority) -> (value: Self)
        ensures
            value == (TaskValue {
                assignee: None,
                remaining: duration,
                updated_at: value.created_at,
                priority,
                created_at: value.created_at,
                duration,
            }),
    {
        TaskValue::new_at(duration, priority, Timestamp::now())
    }
}

/// A task: where it is stored, and what is stored there.
#[derive(Debug, PartialEq, Eq)]
pub struct Task {
    pub key: TaskKey,
    pub value: TaskValue,
}

impl Clone for Task {
    fn clone(&self) -> (copy: Self)
        ensures
            copy == *self,
    {
        Task { key: self.key, value: self.value.clone() }
    }
}

impl Task {
    /// What holds of every task that the operations of this crate wrote:
    /// it owes no more work than was asked for, and it has an assignee
    /// exactly while it runs.
    pub open spec fn well_formed(self) -> bool {
        &&& self.value.remaining.nanos <= self.value.duration.nanos
        &&& (self.key.state == TaskState::Running <==> self.value.assignee is Some)
    }

    /// A new task: queued, with all of `duration` still owed, under a fresh
    /// random identifier, stamped with the current time.
    pub fn generate(priority: TaskPriority, duration: WorkTime) -> (task: Self)
        ensures
            task.key.state == TaskState::Queued,
            is_random_id(task.key.id@),
            task.value == (TaskValue {
                assignee: None,
                remaining: duration,
                updated_at: task.value.created_at,
                priority,
                created_at: task.value.created_at,
                duration,
            }),
            task.well_formed(),
    {
        Task {
            key: TaskKey::generate(),
            value: TaskValue::new_with_current_time(duration, priority),
        }
    }
}

/// What a client sends to have a task created.
#[derive(Clone, Copy, Debug, PartialEq, Eq, Structural)]
pub struct CreateTask {
    pub duration: WorkTime,
    pub priority: TaskPriority,
}

/// Two task keys with the same bytes are the same key.
pub proof fn lemma_task_key_unique(a: TaskKey, b: TaskKey)
    requires
        a.encoding() == b.encoding(),
    ensures
        a == b,
{
    let ea = a.encoding();
    let eb = b.encoding();
    assert(ea[1] == state_byte(a.state));
    assert(eb[1] == state_byte(b.state));
    assert(a.id@ =~= ea.subrange(2, ea.len() as int));
    assert(b.id@ =~= eb.subrange(2, eb.len() as int));
    assert(a.id.0 == b.id.0);
}

/// Two priority keys with the same bytes are the same key.
pub proof fn lemma_priority_key_unique(a: PriorityKey, b: PriorityKey)
    requires
        a.encoding() == b.encoding(),
    ensures
        a == b,
{
    let ea = a.encoding();
    let eb = b.encoding();
    assert(ea[1] == a.priority.0);
    assert(eb[1] == b.priority.0);
    assert(a.id@ =~= ea.subrange(2, ea.len() as int));
    assert(b.id@ =~= eb.subrange(2, eb.len() as int));
    assert(a.id.0 == b.id.0);
}

/// Decoding undoes encoding: the bytes of a task key parse, and they parse
/// to that key.
pub proof fn lemma_task_key_round_trip(key: TaskKey)
    ensures
        parse_task_key(key.encoding()) == Ok::<TaskKey, KeyError>(key),
{
    let bytes = key.encoding();
    assert(bytes.len() == KEY_LEN);
    assert(bytes[0] == TASK_PREFIX);
    assert(bytes[1] == state_byte(key.state));
    assert(task_key_error(bytes) is None);
    lemma_task_key_unique(key, choose|other: TaskKey| other.encoding() == bytes);
}

/// Decoding undoes encoding: the bytes of a priority key parse, and they
/// parse to that key.
pub proof fn lemma_priority_key_round_trip(key: PriorityKey)
    ensures
        parse_priority_key(key.encoding()) == Ok::<PriorityKey, KeyError>(key),
{
    let bytes = key.encoding();
    assert(bytes.len() == KEY_LEN);
    assert(bytes[0] == PRIORITY_PREFIX);
    assert(priority_key_error(bytes) is None);
    lemma_priority_key_unique(key, choose|other: PriorityKey| other.encoding() == bytes);
}

/// Bytes that parse as a task key are the encoding of the key they parse to;
/// all other bytes are refused with the first rule they break.
pub proof fn lemma_task_key_parse_exact(bytes: Seq<u8>)
    ensures
        match parse_task_key(bytes) {
            Ok(key) => key.encoding() == bytes,
            Err(e) => task_key_error(bytes) == Some(e),
        },
{
    if task_key_error(bytes) is None {
        let state = byte_state(bytes[1])->0;
        let id = TaskId(choose|a: [u8; 16]| a@ == bytes.subrange(2, 18));
        lemma_id_exists(bytes.subrange(2, 18));
        let key = TaskKey { state, id };
        assert(key.encoding() =~= bytes);
    }
}

/// Bytes that parse as a priority key are the encoding of the key they parse
/// to; all other bytes are refused with the first rule they break.
pub proof fn lemma_priority_key_parse_exact(bytes: Seq<u8>)
    ensures
        match parse_priority_key(bytes) {
            Ok(key) => key.encoding() == bytes,
            Err(e) => priority_key_error(bytes) == Some(e),
        },
{
    if priority_key_error(bytes) is None {
        let id = TaskId(choose|a: [u8; 16]| a@ == bytes.subrange(2, 18));
        lemma_id_exists(bytes.subrange(2, 18));
        let key = PriorityKey { priority: TaskPriority(bytes[1]), id };
        assert(key.encoding() =~= bytes);
    }
}

/// The store's key order: `a` stands before `b` where they first differ in
/// a place at which `a` holds the smaller byte, or where `a` is a proper
/// prefix of `b`.
pub open spec fn precedes(a: Seq<u8>, b: Seq<u8>) -> bool {
    exists|i: int|
        #![trigger a.subrange(0, i)]
        0 <= i <= a.len() && i < b.len() && a.subrange(0, i) == b.subrange(0, i) && (i < a.len()
            ==> a[i] < b[i])
}

/// The feed hands out queued tasks by priority, smallest number first, and
/// among equal priorities by identifier: the key order of two index entries
/// is the order of their (priority, identifier) pairs.
pub proof fn lemma_feed_order(a: PriorityKey, b: PriorityKey)
    ensures
        precedes(a.encoding(), b.encoding()) <==> (a.priority.0 < b.priority.0 || (a.priority.0
            == b.priority.0 && precedes(a.id@, b.id@))),
{
    let ea = a.encoding();
    let eb = b.encoding();
    assert(ea.len() == KEY_LEN && eb.len() == KEY_LEN);
    assert(ea[0] == PRIORITY_PREFIX && eb[0] == PRIORITY_PREFIX);
    assert(ea[1] == a.priority.0 && eb[1] == b.priority.0);
    assert(forall|j: int| 0 <= j < 16 ==> ea[j + 2] == a.id@[j] && eb[j + 2] == b.id@[j]);
    if precedes(ea, eb) {
        let i = choose|i: int|
            #![trigger ea.subrange(0, i)]
            0 <= i <= ea.len() && i < eb.len() && ea.subrange(0, i) == eb.subrange(0, i) && (i
                < ea.len() ==> ea[i] < eb[i]);
        if i >= 2 {
            assert(ea.subrange(0, i)[1] == eb.subrange(0, i)[1]);
            let k = i - 2;
            assert(a.id@.subrange(0, k) =~= b.id@.subrange(0, k)) by {
                assert forall|j: int| 0 <= j < k implies a.id@[j] == b.id@[j] by {
                    assert(ea.subrange(0, i)[j + 2] == eb.subrange(0, i)[j + 2]);
                }
            }
            assert(a.id@[k] == ea[i] && b.id@[k] == eb[i]);
        }
    }
    if a.priority.0 < b.priority.0 {
        assert(ea.subrange(0, 1) =~= eb.subrange(0, 1));
    }
    if a.priority.0 == b.priority.0 && precedes(a.id@, b.id@) {
        let k = choose|k: int|
            #![trigger a.id@.subrange(0, k)]
            0 <= k <= a.id@.len() && k < b.id@.len() && a.id@.subrange(0, k) == b.id@.subrange(
                0,
                k,
            ) && (k < a.id@.len() ==> a.id@[k] < b.id@[k]);
        assert(ea.subrange(0, k + 2) =~= eb.subrange(0, k + 2)) by {
            assert forall|j: int| 0 <= j < k + 2 implies ea[j] == eb[j] by {
                if j >= 2 {
                    assert(a.id@.subrange(0, k)[j - 2] == b.id@.subrange(0, k)[j - 2]);
                }
            }
        }
        assert(ea[k + 2] == a.id@[k] && eb[k + 2] == b.id@[k]);
    }
}

/// A task of a smaller priority number is fed before every task of a larger
/// one, whatever their identifiers.
pub proof fn lemma_priority_decides(a: PriorityKey, b: PriorityKey)
    requires
        a.priority.0 < b.priority.0,
    ensures
        precedes(a.encoding(), b.encoding()),
        !precedes(b.encoding(), a.encoding()),
{
    lemma_feed_order(a, b);
    lemma_feed_order(b, a);
}

/// Every sequence of sixteen bytes is the content of some array.
proof fn lemma_id_exists(bytes: Seq<u8>)
    requires
        bytes.len() == ID_LEN,
    ensures
        exists|a: [u8; 16]| a@ == bytes,
{
    let a0: [u8; 16] = arbitrary();
    lemma_fill_from(a0, bytes, 0);
    let a = fill_from(a0, bytes, 0);
    assert(a@ =~= bytes);
}

/// `a` with the places from `from` on replaced by those of `bytes`.
spec fn fill_from(a: [u8; 16], bytes: Seq<u8>, from: int) -> [u8; 16]
    decreases 16 - from,
{
    if 0 <= from < 16 {
        fill_from(vstd::array::spec_array_update(a, from, bytes[from]), bytes, from + 1)
    } else {
        a
    }
}

proof fn lemma_fill_from(a: [u8; 16], bytes: Seq<u8>, from: int)
    requires
        0 <= from <= 16,
        bytes.len() == 16,
    ensures
        forall|j: int| 0 <= j < from ==> fill_from(a, bytes, from)@[j] == a@[j],
        forall|j: int| from <= j < 16 ==> fill_from(a, bytes, from)@[j] == bytes[j],
    decreases 16 - from,
{
    if from < 16 {
        let next = vstd::array::spec_array_update(a, from, bytes[from]);
        assert(next@ == a@.update(from, bytes[from]));
        lemma_fill_from(next, bytes, from + 1);
        assert(fill_from(a, bytes, from) == fill_from(next, bytes, from + 1));
        assert forall|j: int| 0 <= j < from implies fill_from(a, bytes, from)@[j] == a@[j] by {
            assert(next@[j] == a@[j]);
        }
        assert forall|j: int| from <= j < 16 implies fill_from(a, bytes, from)@[j] == bytes[j] by {
            if j == from {
                assert(next@[j] == bytes[j]);
            }
        }
    }
}

} // verus!
