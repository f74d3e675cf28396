//! The HTTP surface: what each endpoint answers, given what the operation
//! behind it came to.
//!
//! An endpoint maps to one operation. A store failure, an inconsistent
//! store and unreadable bytes all answer 500; a task that does not exist
//! answers 404. The caller runs the operation and carries the answer.

use vstd::prelude::*;
use vstd::string::StringExecFns;

use crate::kv::{RangeRequest, RangeRequestView, Revision, SortOrder};
use crate::ops::{list_limit, list_tasks_request, task_prefix, OpsError, DEFAULT_LIST_LIMIT};
use crate::task::{id_text, Task, TaskId, TaskState};

verus! {

pub const STATUS_OK: u16 = 200;

pub const STATUS_CREATED: u16 = 201;

pub const STATUS_NOT_FOUND: u16 = 404;

pub const STATUS_INTERNAL: u16 = 500;

/// The two ways in which an endpoint fails.
#[derive(Clone, Copy, Debug, PartialEq, Eq, Structural)]
pub enum ApiErrorKind {
    Internal,
    NotFound,
}

impl ApiErrorKind {
    /// A failure is internal unless it is known to be something else.
    pub fn default() -> (kind: Self)
        ensures
            kind == ApiErrorKind::Internal,
    {
        ApiErrorKind::Internal
    }

    /// The status that the failure answers with: 500 or 404.
    pub fn status_code(&self) -> (status: u16)
        ensures
            status == match *self {
                ApiErrorKind::Internal => STATUS_INTERNAL,
                ApiErrorKind::NotFound => STATUS_NOT_FOUND,
            },
    {
        match self {
            ApiErrorKind::Internal => STATUS_INTERNAL,
            ApiErrorKind::NotFound => STATUS_NOT_FOUND,
        }
    }

    /// The name of the failure as it opens the answer's text.
    pub open spec fn reason_text(self) -> Seq<char> {
        match self {
            ApiErrorKind::Internal => "Internal Server Error"@,
            ApiErrorKind::NotFound => "Not Found"@,
        }
    }

    /// Computes [`ApiErrorKind::reason_text`].
    pub fn reason(&self) -> (text: &'static str)
        ensures
            text@ == self.reason_text(),
    {
        match self {
            ApiErrorKind::Internal => "Internal Server Error",
            ApiErrorKind::NotFound => "Not Found",
        }
    }
}

/// A failed endpoint: what kind of failure, and what was being done.
#[derive(Debug, PartialEq, Eq)]
pub struct ApiError {
    pub kind: ApiErrorKind,
    pub message: String,
}

impl ApiError {
    /// The failure that an error of an operation becomes: internal, and
    /// described by what the endpoint was doing.
    pub fn internal(context: String) -> (error: Self)
        ensures
            error.kind == ApiErrorKind::Internal,
            error.message == context,
    {
        ApiError { kind: ApiErrorKind::default(), message: context }
    }

    /// The text of the answer: the name of the failure, a colon, and the
    /// message.
    pub fn to_text(&self) -> (text: String)
        ensures
            text@ == self.kind.reason_text() + ": "@ + self.message@,
    {
        let mut text = self.kind.reason().to_owned();
        text.append(": ");
        text.append(self.message.as_str());
        text
    }
}

/// The message of the 404 answer for the task `id`.
pub open spec fn missing_text(id: Seq<u8>) -> Seq<char> {
    "task "@ + id_text(id) + " does not exist"@
}

/// The failure that answers a request for a task that is not there.
pub fn not_found(id: &TaskId) -> (error: ApiError)
    ensures
        error.kind == ApiErrorKind::NotFound,
        error.message@ == missing_text(id@),
{
    let mut message = "task ".to_owned();
    message.append(id.to_text().as_str());
    message.append(" does not exist");
    ApiError { kind: ApiErrorKind::NotFound, message }
}

/// `prefix` followed by the text form of `id`.
fn with_id(prefix: &str, id: &TaskId) -> (text: String)
    ensures
        text@ == prefix@ + id_text(id@),
{
    let mut text = prefix.to_owned();
    text.append(id.to_text().as_str());
    text
}

/// What a listing may be asked for: tasks of one state only, and a limit.
#[derive(Clone, Copy, Debug, PartialEq, Eq)]
pub struct ListTasksParams {
    pub state: Option<TaskState>,
    pub limit: Option<i64>,
}

impl ListTasksParams {
    /// The read that serves the listing: under the limit asked for, or
    /// under 50 where none was.
    pub fn request(&self) -> (request: RangeRequest)
        ensures
            request@ == (RangeRequestView {
                prefix: task_prefix(self.state),
                limit: match self.limit {
                    Some(n) => n as int,
                    None => DEFAULT_LIST_LIMIT as int,
                },
                sort: SortOrder::Unsorted,
            }),
    {
        list_tasks_request(self.state, list_limit(self.limit))
    }
}

/// Answers the submission of a task: 201 with the task as stored, or 500.
pub fn create_task_endpoint(outcome: Result<Task, OpsError>) -> (answer: Result<
    (u16, Task),
    ApiError,
>)
    ensures
        match outcome {
            Ok(task) => answer == Ok::<(u16, Task), ApiError>((STATUS_CREATED, task)),
            Err(_) => answer matches Err(error) && error.kind == ApiErrorKind::Internal
                && error.message@ == "failed to create task"@,
        },
{
    match outcome {
        Ok(task) => Ok((STATUS_CREATED, task)),
        Err(_) => Err(ApiError::internal("failed to create task".to_owned())),
    }
}

/// The tasks of `rows`, in order, without their revisions.
pub open spec fn tasks_of(rows: Seq<(Task, Revision)>) -> Seq<Task> {
    Seq::new(rows.len(), |i: int| rows[i].0)
}

/// Answers a listing: 200 with the tasks in the order in which they were
/// read, or 500.
pub fn list_tasks_endpoint(outcome: Result<Vec<(Task, Revision)>, OpsError>) -> (answer: Result<
    (u16, Vec<Task>),
    ApiError,
>)
    ensures
        match outcome {
            Ok(rows) => answer matches Ok(listing) && listing.0 == STATUS_OK && listing.1@
                == tasks_of(rows@),
            Err(_) => answer matches Err(error) && error.kind == ApiErrorKind::Internal
                && error.message@ == "failed to list tasks"@,
        },
{
    match outcome {
        Ok(rows) => {
            let mut tasks: Vec<Task> = Vec::new();
            let mut i: usize = 0;
            while i < rows.len()
                invariant
                    0 <= i <= rows.len(),
                    tasks@ == tasks_of(rows@).take(i as int),
                decreases rows.len() - i,
            {
                tasks.push(rows[i].0.clone());
                assert(tasks@ =~= tasks_of(rows@).take(i + 1));
                i += 1;
            }
            assert(tasks@ =~= tasks_of(rows@));
            Ok((STATUS_OK, tasks))
        },
        Err(_) => Err(ApiError::internal("failed to list tasks".to_owned())),
    }
}

/// Answers a request for one task: 200 with the task, 404 where there is
/// none, or 500.
pub fn find_task_endpoint(id: &TaskId, outcome: Result<Option<(Task, Revision)>, OpsError>) -> (answer:
    Result<(u16, Task), ApiError>)
    ensures
        match outcome {
            Ok(Some(found)) => answer == Ok::<(u16, Task), ApiError>((STATUS_OK, found.0)),
            Ok(None) => answer matches Err(error) && error.kind == ApiErrorKind::NotFound
                && error.message@ == missing_text(id@),
            Err(_) => answer matches Err(error) && error.kind == ApiErrorKind::Internal
                && error.message@ == "failed to find task "@ + id_text(id@),
        },
{
    match outcome {
        Ok(Some(found)) => Ok((STATUS_OK, found.0)),
        Ok(None) => Err(not_found(id)),
        Err(_) => Err(ApiError::internal(with_id("failed to find task ", id))),
    }
}

/// Answers a cancellation: 200 with the task as it was found, 404 where
/// there was none, or 500.
pub fn cancel_task_endpoint(id: &TaskId, outcome: Result<Option<Task>, OpsError>) -> (answer:
    Result<(u16, Task), ApiError>)
    ensures
        match outcome {
            Ok(Some(task)) => answer == Ok::<(u16, Task), ApiError>((STATUS_OK, task)),
            Ok(None) => answer matches Err(error) && error.kind == ApiErrorKind::NotFound
                && error.message@ == missing_text(id@),
            Err(_) => answer matches Err(error) && error.kind == ApiErrorKind::Internal
                && error.message@ == "failed to cancel task "@ + id_text(id@),
        },
{
    match outcome {
        Ok(Some(task)) => Ok((STATUS_OK, task)),
        Ok(None) => Err(not_found(id)),
        Err(_) => Err(ApiError::internal(with_id("failed to cancel task ", id))),
    }
}

} // verus!
