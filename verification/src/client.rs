//! The client's side of the HTTP surface: the shape of each request, and
//! the rule by which a client with several endpoints settles on an answer.
//!
//! Endpoints are tried in the order given. One that cannot be reached is
//! passed over; the first one that answers decides, whether it accepts the
//! request or refuses it. The caller sends the requests and reports what
//! came back.

use vstd::prelude::*;
use vstd::string::StringExecFns;

use crate::task::{id_text, CreateTask, TaskId, TaskState};

verus! {

/// The HTTP method of a request.
#[derive(Clone, Copy, Debug, PartialEq, Eq, Structural)]
pub enum Method {
    Get,
    Post,
    Delete,
}

/// What a client may ask of the service.
#[derive(Clone, Copy, Debug, PartialEq, Eq)]
pub enum Request {
    /// Create a task.
    Submit { payload: CreateTask },
    /// List tasks, of one state or of all, under a limit or under the
    /// service's own.
    List { state: Option<TaskState>, limit: Option<u32> },
    /// Show one task.
    Find { id: TaskId },
    /// Cancel one task.
    Cancel { id: TaskId },
}

impl Request {
    /// The path of the request: the collection of tasks, or one task in it.
    pub open spec fn path_text(self) -> Seq<char> {
        match self {
            Request::Submit { .. } | Request::List { .. } => "/api/tasks"@,
            Request::Find { id } | Request::Cancel { id } => "/api/tasks/"@ + id_text(id@),
        }
    }

    /// The method of the request.
    pub fn method(&self) -> (method: Method)
        ensures
            method == match *self {
                Request::Submit { .. } => Method::Post,
                Request::List { .. } | Request::Find { .. } => Method::Get,
                Request::Cancel { .. } => Method::Delete,
            },
    {
        match self {
            Request::Submit { .. } => Method::Post,
            Request::List { .. } => Method::Get,
            Request::Find { .. } => Method::Get,
            Request::Cancel { .. } => Method::Delete,
        }
    }

    /// Computes [`Request::path_text`].
    pub fn path(&self) -> (path: String)
        ensures
            path@ == self.path_text(),
    {
        match self {
            Request::Submit { .. } => "/api/tasks".to_owned(),
            Request::List { .. } => "/api/tasks".to_owned(),
            Request::Find { id } => {
                let mut path = "/api/tasks/".to_owned();
                path.append(id.to_text().as_str());
                path
            },
            Request::Cancel { id } => {
                let mut path = "/api/tasks/".to_owned();
                path.append(id.to_text().as_str());
                path
            },
        }
    }

    /// The value of the query parameter `state`, where the request has one.
    pub fn state_param(&self) -> (word: Option<&'static str>)
        ensures
            match *self {
                Request::List { state: Some(state), .. } => word matches Some(w) && w@ == match state {
                    TaskState::Queued => "queued"@,
                    TaskState::Running => "running"@,
                },
                _ => word is None,
            },
    {
        match self {
            Request::List { state: Some(state), .. } => Some(state.as_str()),
            _ => None,
        }
    }

    /// The value of the query parameter `limit`, where the request has one.
    pub fn limit_param(&self) -> (limit: Option<u32>)
        ensures
            limit == match *self {
                Request::List { limit, .. } => limit,
                _ => None::<u32>,
            },
    {
        match self {
            Request::List { limit, .. } => *limit,
            _ => None,
        }
    }

    /// The payload sent with the request, where it has one.
    pub fn body(&self) -> (payload: Option<CreateTask>)
        ensures
            payload == match *self {
                Request::Submit { payload } => Some(payload),
                _ => None::<CreateTask>,
            },
    {
        match self {
            Request::Submit { payload } => Some(*payload),
            _ => None,
        }
    }
}

/// What came of sending a request to one endpoint.
#[derive(Debug, PartialEq, Eq)]
pub enum Reply {
    /// The endpoint could not be reached.
    Unreachable,
    /// The endpoint answered with a status that is no success.
    Refused { body: String },
    /// The endpoint answered with a success.
    Accepted { body: String },
}

/// Why a call of the client failed.
#[derive(Debug, PartialEq, Eq)]
pub enum ClientError {
    /// No endpoint could be reached.
    AllUnreachable,
    /// The service refused the request; `body` is its answer.
    Api { body: String },
}

impl ClientError {
    /// What is shown to the user.
    pub open spec fn text(self) -> Seq<char> {
        match self {
            ClientError::AllUnreachable => "All API endpoints are dead"@,
            ClientError::Api { body } => body@,
        }
    }

    /// Computes [`ClientError::text`].
    pub fn message(&self) -> (text: String)
        ensures
            text@ == self.text(),
    {
        match self {
            ClientError::AllUnreachable => "All API endpoints are dead".to_owned(),
            ClientError::Api { body } => body.clone(),
        }
    }
}

/// Where a call stands: the endpoint to try next, or the result.
#[derive(Debug, PartialEq, Eq)]
pub enum Failover {
    /// Send the request to the endpoint at place `endpoint` of `of`.
    Trying { endpoint: usize, of: usize },
    /// The call is over.
    Done { result: Result<String, ClientError> },
}

impl Failover {
    /// The state of a call as it turns to the endpoint at place `endpoint`:
    /// trying it, or, where the endpoints are used up, failed.
    pub open spec fn turning_to(endpoint: int, of: int) -> Failover {
        if 0 <= endpoint < of {
            Failover::Trying { endpoint: endpoint as usize, of: of as usize }
        } else {
            Failover::Done { result: Err(ClientError::AllUnreachable) }
        }
    }

    /// The state that follows `self` on `reply`. A call that is over stays
    /// as it is.
    pub open spec fn after(self, reply: Reply) -> Failover {
        match self {
            Failover::Done { .. } => self,
            Failover::Trying { endpoint, of } => match reply {
                Reply::Accepted { body } => Failover::Done { result: Ok(body) },
                Reply::Refused { body } => Failover::Done {
                    result: Err(ClientError::Api { body }),
                },
                Reply::Unreachable => Failover::turning_to(endpoint + 1, of as int),
            },
        }
    }

    /// A call over `endpoints` endpoints starts with the first of them.
    pub fn start(endpoints: usize) -> (state: Self)
        ensures
            state == Failover::turning_to(0, endpoints as int),
    {
        if endpoints > 0 {
            Failover::Trying { endpoint: 0, of: endpoints }
        } else {
            Failover::Done { result: Err(ClientError::AllUnreachable) }
        }
    }

    /// Computes [`Failover::after`].
    pub fn step(self, reply: Reply) -> (next: Self)
        ensures
            next == self.after(reply),
    {
        match self {
            Failover::Done { result } => Failover::Done { result },
            Failover::Trying { endpoint, of } => match reply {
                Reply::Accepted { body } => Failover::Done { result: Ok(body) },
                Reply::Refused { body } => Failover::Done {
                    result: Err(ClientError::Api { body }),
                },
                Reply::Unreachable => {
                    if endpoint < of && endpoint + 1 < of {
                        Failover::Trying { endpoint: endpoint + 1, of }
                    } else {
                        Failover::Done { result: Err(ClientError::AllUnreachable) }
                    }
                },
            },
        }
    }
}

/// The state of a call over `endpoints` endpoints after the replies of
/// `replies` came in, one after another.
pub open spec fn after_replies(endpoints: int, replies: Seq<Reply>) -> Failover
    decreases replies.len(),
{
    if replies.len() == 0 {
        Failover::turning_to(0, endpoints)
    } else {
        after_replies(endpoints, replies.drop_last()).after(replies.last())
    }
}

/// Endpoints are tried in order, and the first that answers decides: while
/// every endpoint so far was unreachable, the call tries the next one, and
/// fails once none is left; and as soon as one answers, the call is over
/// with that answer, whatever the endpoints after it would have said.
pub proof fn lemma_first_answer_decides(endpoints: int, replies: Seq<Reply>, n: int)
    requires
        0 <= endpoints <= usize::MAX,
        0 <= n <= replies.len(),
        n <= endpoints,
        forall|i: int| 0 <= i < n ==> (#[trigger] replies[i]) is Unreachable,
    ensures
        after_replies(endpoints, replies.take(n)) == Failover::turning_to(n, endpoints),
        n < replies.len() && n < endpoints ==> (replies[n] matches Reply::Accepted { body }
            ==> after_replies(endpoints, replies) == (Failover::Done { result: Ok(body) })),
        n < replies.len() && n < endpoints ==> (replies[n] matches Reply::Refused { body }
            ==> after_replies(endpoints, replies) == (Failover::Done {
            result: Err(ClientError::Api { body }),
        })),
{
    lemma_unreachable_prefix(endpoints, replies.take(n));
    if n < replies.len() && n < endpoints && !(replies[n] is Unreachable) {
        lemma_done_is_final(endpoints, replies, n + 1);
        assert(replies.take(n + 1).drop_last() =~= replies.take(n));
        assert(replies.take(n + 1).last() == replies[n]);
    }
}

/// After `replies`, all of them failures to reach an endpoint, the call
/// turns to the endpoint that follows them.
proof fn lemma_unreachable_prefix(endpoints: int, replies: Seq<Reply>)
    requires
        0 <= endpoints <= usize::MAX,
        replies.len() <= endpoints,
        forall|i: int| 0 <= i < replies.len() ==> (#[trigger] replies[i]) is Unreachable,
    ensures
        after_replies(endpoints, replies) == Failover::turning_to(replies.len() as int, endpoints),
    decreases replies.len(),
{
    if replies.len() > 0 {
        lemma_unreachable_prefix(endpoints, replies.drop_last());
        assert(replies.last() == replies[replies.len() - 1]);
    }
}

/// A call that is over after the first `n` replies is over, with the same
/// result, after all of them.
proof fn lemma_done_is_final(endpoints: int, replies: Seq<Reply>, n: int)
    requires
        0 <= n <= replies.len(),
        after_replies(endpoints, replies.take(n)) is Done,
    ensures
        after_replies(endpoints, replies) == after_replies(endpoints, replies.take(n)),
    decreases replies.len() - n,
{
    if n < replies.len() {
        assert(replies.take(n + 1).drop_last() =~= replies.take(n));
        lemma_done_is_final(endpoints, replies, n + 1);
    } else {
        assert(replies.take(n) =~= replies);
    }
}

} // verus!
