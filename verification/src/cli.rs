//! What the command line contributes beyond the client: the work time that
//! a submission asks for, and the list of identifiers that a command acts
//! on.

use vstd::prelude::*;

use crate::task::{CreateTask, TaskId, TaskPriority};
use crate::time::{WorkTime, NANOS_PER_MILLI, NANOS_PER_SEC};

verus! {

/// The arguments of a submission: a duration in whole seconds and further
/// milliseconds, and a priority.
#[derive(Clone, Copy, Debug, PartialEq, Eq)]
pub struct SubmitArgs {
    pub seconds: u64,
    pub millis: u64,
    pub priority: TaskPriority,
}

impl SubmitArgs {
    /// The arguments of a submission that names none: ten seconds, at the
    /// default priority.
    pub fn default() -> (args: Self)
        ensures
            args.seconds == 10,
            args.millis == 0,
            args.priority.0 == crate::task::DEFAULT_PRIORITY,
    {
        SubmitArgs { seconds: 10, millis: 0, priority: TaskPriority::default() }
    }

    /// The work time asked for, in nanoseconds: the seconds and the
    /// milliseconds together.
    pub open spec fn nanos(self) -> int {
        self.seconds * NANOS_PER_SEC + self.millis * NANOS_PER_MILLI
    }

    /// The work time asked for: see [`SubmitArgs::nanos`].
    pub fn duration(&self) -> (time: WorkTime)
        ensures
            time.nanos == self.nanos(),
    {
        let secs = WorkTime::from_secs(self.seconds);
        let millis = WorkTime::from_millis(self.millis);
        WorkTime { nanos: secs.nanos + millis.nanos }
    }

    /// The payload that the submission sends.
    pub fn payload(&self) -> (payload: CreateTask)
        ensures
            payload.duration.nanos == self.nanos(),
            payload.priority == self.priority,
    {
        CreateTask { duration: self.duration(), priority: self.priority }
    }
}

/// The values of `items` in the order in which each first occurs.
pub open spec fn distinct<T>(items: Seq<T>) -> Seq<T>
    decreases items.len(),
{
    if items.len() == 0 {
        seq![]
    } else {
        let front = distinct(items.drop_last());
        if front.contains(items.last()) {
            front
        } else {
            front.push(items.last())
        }
    }
}

/// A sequence with one more value at its end holds what it held, and that
/// value.
proof fn lemma_push_contains<T>(s: Seq<T>, v: T, x: T)
    ensures
        s.push(v).contains(x) <==> (s.contains(x) || x == v),
{
    let t = s.push(v);
    if s.contains(x) {
        let i = choose|i: int| 0 <= i < s.len() && s[i] == x;
        assert(t[i] == x);
    }
    if x == v {
        assert(t[s.len() as int] == x);
    }
    if t.contains(x) {
        let i = choose|i: int| 0 <= i < t.len() && t[i] == x;
        if i < s.len() {
            assert(s[i] == x);
        }
    }
}

/// `distinct` names every value of its argument, and each of them once.
pub proof fn lemma_distinct<T>(items: Seq<T>)
    ensures
        distinct(items).no_duplicates(),
        forall|x: T| distinct(items).contains(x) <==> items.contains(x),
        distinct(items).len() <= items.len(),
    decreases items.len(),
{
    if items.len() > 0 {
        let front = items.drop_last();
        let last = items.last();
        let kept = distinct(front);
        lemma_distinct(front);
        assert(items =~= front.push(last));
        assert forall|x: T| distinct(items).contains(x) <==> items.contains(x) by {
            lemma_push_contains(front, last, x);
            lemma_push_contains(kept, last, x);
        }
        if !kept.contains(last) {
            let more = kept.push(last);
            assert forall|i: int, j: int| 0 <= i < more.len() && 0 <= j < more.len() && i != j implies more[i]
                != more[j] by {
                if i < kept.len() && j < kept.len() {
                    assert(kept[i] != kept[j]);
                } else if i < kept.len() {
                    assert(kept.contains(kept[i]));
                } else {
                    assert(kept.contains(kept[j]));
                }
            }
        }
    }
}

/// Collections from which repeated values can be dropped.
pub trait Compact: Sized {
    fn compact(self) -> Self;
}

impl Compact for Vec<TaskId> {
    /// Drops every identifier that occurred before; what is left stands in
    /// the order of first occurrence.
    fn compact(self) -> (kept: Self)
        ensures
            kept@ == distinct(self@),
    {
        let mut kept: Vec<TaskId> = Vec::new();
        let mut i: usize = 0;
        assert(self@.take(0) =~= seq![]);
        while i < self.len()
            invariant
                0 <= i <= self.len(),
                kept@ == distinct(self@.take(i as int)),
            decreases self.len() - i,
        {
            let id = self[i];
            proof {
                assert(self@.take(i + 1).drop_last() =~= self@.take(i as int));
                assert(self@.take(i + 1).last() == id);
            }
            let mut seen = false;
            let mut j: usize = 0;
            while j < kept.len()
                invariant
                    0 <= j <= kept.len(),
                    seen <==> exists|k: int| 0 <= k < j && kept@[k] == id,
                decreases kept.len() - j,
            {
                if kept[j].same(&id) {
                    seen = true;
                }
                j += 1;
            }
            if !seen {
                kept.push(id);
            }
            i += 1;
        }
        assert(self@.take(i as int) =~= self@);
        kept
    }
}

} // verus!
