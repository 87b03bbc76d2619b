//! One page of query results, reduced to plain values: the emptiness and
//! pagination flags derived from the response body, the quota snapshot,
//! and the serialized payload of one of the three task-specific responses.

use vstd::prelude::*;

use crate::executor::Window;
use crate::util::{RateLimit, TaskType};

verus! {

/// The serialized response body of one page, tagged by the task that
/// produced it. The bytes themselves are opaque here; deriving them from
/// the wire format is the transport's business.
#[derive(Debug, Clone, PartialEq, Eq)]
pub enum QueryResponseData {
    Discussions(String),
    PRCommits(String),
    ClosedIssues(String),
}

impl QueryResponseData {
    /// The task this payload belongs to.
    pub open spec fn spec_task_type(&self) -> TaskType {
        match *self {
            QueryResponseData::Discussions(_) => TaskType::Discussions,
            QueryResponseData::PRCommits(_) => TaskType::PRCommits,
            QueryResponseData::ClosedIssues(_) => TaskType::ClosedIssues,
        }
    }

    /// The serialized payload text.
    pub open spec fn spec_payload(&self) -> Seq<char> {
        match *self {
            QueryResponseData::Discussions(s) => s@,
            QueryResponseData::PRCommits(s) => s@,
            QueryResponseData::ClosedIssues(s) => s@,
        }
    }

    /// The task this payload belongs to.
    pub fn task_type(&self) -> (t: TaskType)
        ensures
            t == self.spec_task_type(),
    {
        match self {
            QueryResponseData::Discussions(_) => TaskType::Discussions,
            QueryResponseData::PRCommits(_) => TaskType::PRCommits,
            QueryResponseData::ClosedIssues(_) => TaskType::ClosedIssues,
        }
    }

    /// The serialized payload text.
    pub fn payload(&self) -> (p: &String)
        ensures
            p@ == self.spec_payload(),
    {
        match self {
            QueryResponseData::Discussions(s) => s,
            QueryResponseData::PRCommits(s) => s,
            QueryResponseData::ClosedIssues(s) => s,
        }
    }
}

/// What one successful page fetch means to the pagination state machine.
#[derive(Debug, Clone, PartialEq, Eq)]
pub struct QueryResult {
    pub is_empty_page: bool,
    pub has_next_page: bool,
    pub rate_limit: RateLimit,
    pub query_cursor: Option<String>,
    pub response_data: QueryResponseData,
}

impl QueryResult {
    /// Derive the pagination flags from the raw shape of a response body:
    /// whether the repository was found, how many nodes the page holds
    /// (`None` when the node list itself is missing), the page-info flag,
    /// and the end cursor. A page with a missing repository or node list
    /// counts as empty; the cursor is carried onward only when there is a
    /// next page.
    pub fn from_parts(
        repo_present: bool,
        nodes_len: Option<u64>,
        has_next_page: bool,
        end_cursor: Option<String>,
        rate_limit: RateLimit,
        response_data: QueryResponseData,
    ) -> (r: Self)
        ensures
            r.is_empty_page == (!repo_present || nodes_len is None || nodes_len == Some(0u64)),
            r.has_next_page == (repo_present && has_next_page),
            r.query_cursor == if repo_present && has_next_page {
                end_cursor
            } else {
                None::<String>
            },
            r.rate_limit == rate_limit,
            r.response_data == response_data,
    {
        let is_empty_page = !repo_present || match nodes_len {
            None => true,
            Some(n) => n == 0,
        };
        let next = repo_present && has_next_page;
        QueryResult {
            is_empty_page,
            has_next_page: next,
            rate_limit,
            query_cursor: if next {
                end_cursor
            } else {
                None
            },
            response_data,
        }
    }
}

/// The variables of one page request: the repository coordinates, the
/// cursor to continue from, and the requested page window.
#[derive(Debug, Clone, PartialEq, Eq)]
pub struct QueryVariables {
    pub repo_owner: String,
    pub repo_name: String,
    pub query_cursor: Option<String>,
    pub query_window: Option<i64>,
}

impl QueryVariables {
    /// The variables of a fresh page request: full window.
    pub fn new(repo_owner: String, repo_name: String, query_cursor: Option<String>) -> (r: Self)
        ensures
            r.repo_owner == repo_owner,
            r.repo_name == repo_name,
            r.query_cursor == query_cursor,
            r.query_window == Some(100i64),
    {
        QueryVariables { repo_owner, repo_name, query_cursor, query_window: Some(100) }
    }
}

impl Window for QueryVariables {
    open spec fn spec_window(&self) -> i64 {
        match self.query_window {
            Some(w) => w,
            None => 100,
        }
    }

    fn get_window(&self) -> (w: i64) {
        match self.query_window {
            Some(w) => w,
            None => 100,
        }
    }

    fn set_window(&mut self, window: i64)
        ensures
            final(self).query_window == Some(window),
            final(self).repo_owner == old(self).repo_owner,
            final(self).repo_name == old(self).repo_name,
            final(self).query_cursor == old(self).query_cursor,
    {
        self.query_window = Some(window);
    }
}

/// Marker for the answered-discussions query; its pages carry the
/// `Discussions` payload.
#[derive(Debug, Clone, Copy, PartialEq, Eq, Structural)]
pub struct GetAnsweredDiscussions;

impl GetAnsweredDiscussions {
    /// Tag a serialized page body with this query's task.
    pub fn wrap(payload: String) -> (r: QueryResponseData)
        ensures
            r == QueryResponseData::Discussions(payload),
    {
        QueryResponseData::Discussions(payload)
    }

    /// The task this query collects.
    pub fn task_type() -> (t: TaskType)
        ensures
            t == TaskType::Discussions,
    {
        TaskType::Discussions
    }
}

/// Marker for the pull-request-commits query; its pages carry the
/// `PRCommits` payload.
#[derive(Debug, Clone, Copy, PartialEq, Eq, Structural)]
pub struct GetPRCommits;

impl GetPRCommits {
    /// Tag a serialized page body with this query's task.
    pub fn wrap(payload: String) -> (r: QueryResponseData)
        ensures
            r == QueryResponseData::PRCommits(payload),
    {
        QueryResponseData::PRCommits(payload)
    }

    /// The task this query collects.
    pub fn task_type() -> (t: TaskType)
        ensures
            t == TaskType::PRCommits,
    {
        TaskType::PRCommits
    }
}

/// Marker for the closed-issues query; its pages carry the `ClosedIssues`
/// payload.
#[derive(Debug, Clone, Copy, PartialEq, Eq, Structural)]
pub struct GetClosedIssues;

impl GetClosedIssues {
    /// Tag a serialized page body with this query's task.
    pub fn wrap(payload: String) -> (r: QueryResponseData)
        ensures
            r == QueryResponseData::ClosedIssues(payload),
    {
        QueryResponseData::ClosedIssues(payload)
    }

    /// The task this query collects.
    pub fn task_type() -> (t: TaskType)
        ensures
            t == TaskType::ClosedIssues,
    {
        TaskType::ClosedIssues
    }
}

} // verus!
