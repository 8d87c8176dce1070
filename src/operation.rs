//! Remote asynchronous operations: reading their status out of a response.
use vstd::prelude::*;
use crate::json::{split_dots, string_at, value_at, value_at_path, JsonValue};
use crate::text::str_eq;

verus! {

/// Status of a remote operation.
#[derive(Debug, PartialEq, Eq)]
pub enum OperationStatus {
    Running,
    Done,
    /// Finished with an error, with its message.
    Failed(String),
    /// A status text that is not understood.
    Unknown(String),
}

impl OperationStatus {
    pub fn is_terminal(&self) -> (r: bool)
        ensures
            r == (*self is Done || *self is Failed),
    {
        match self {
            OperationStatus::Done | OperationStatus::Failed(_) => true,
            _ => false,
        }
    }
}

/// The message of the first reported error of an operation, if any.
pub open spec fn first_error_message(v: JsonValue) -> Option<Seq<char>> {
    match value_at(v, split_dots("error.errors.0.message"@)) {
        Some(JsonValue::Str(s)) => Some(s@),
        _ => None,
    }
}

/// How a status response reads: `DONE` with an `error` member is a
/// failure (with the first error's message, or a generic one), `DONE`
/// alone is done, `RUNNING` and `PENDING` are running, and anything else,
/// a missing status included (read as `UNKNOWN`), is unknown.
pub open spec fn status_of(v: JsonValue) -> OperationStatus {
    let status = match value_at(v, split_dots("status"@)) {
        Some(JsonValue::Str(s)) => s@,
        _ => "UNKNOWN"@,
    };
    if status == "DONE"@ {
        if value_at(v, split_dots("error"@)) is Some {
            OperationStatus::Failed(arbitrary())
        } else {
            OperationStatus::Done
        }
    } else if status == "RUNNING"@ || status == "PENDING"@ {
        OperationStatus::Running
    } else {
        OperationStatus::Unknown(arbitrary())
    }
}

/// Reads the status of an operation from a status response.
pub fn operation_status_of(response: &JsonValue) -> (r: OperationStatus)
    ensures
        match status_of(*response) {
            OperationStatus::Failed(_) => match r {
                OperationStatus::Failed(m) => m@ == match first_error_message(*response) {
                    Some(t) => t,
                    None => "Unknown operation error"@,
                },
                _ => false,
            },
            OperationStatus::Unknown(_) => match r {
                OperationStatus::Unknown(t) => t@ == match value_at(*response, split_dots("status"@)) {
                    Some(JsonValue::Str(s)) => s@,
                    _ => "UNKNOWN"@,
                },
                _ => false,
            },
            s => r == s,
        },
{
    let status = match string_at(response, "status") {
        Some(s) => s,
        None => String::from_str("UNKNOWN"),
    };
    if str_eq(status.as_str(), "DONE") {
        if value_at_path(response, "error").is_some() {
            let msg = match string_at(response, "error.errors.0.message") {
                Some(m) => m,
                None => String::from_str("Unknown operation error"),
            };
            OperationStatus::Failed(msg)
        } else {
            OperationStatus::Done
        }
    } else if str_eq(status.as_str(), "RUNNING") || str_eq(status.as_str(), "PENDING") {
        OperationStatus::Running
    } else {
        OperationStatus::Unknown(status)
    }
}

/// The reference (`selfLink`) of the operation a mutating call started.
pub fn extract_operation_url(response: &JsonValue) -> (r: Option<String>)
    ensures
        match value_at(*response, split_dots("selfLink"@)) {
            Some(JsonValue::Str(s)) => r is Some && r->0@ == s@,
            _ => r is None,
        },
{
    string_at(response, "selfLink")
}

/// The name of the operation a mutating call started.
pub fn extract_operation_name(response: &JsonValue) -> (r: Option<String>)
    ensures
        match value_at(*response, split_dots("name"@)) {
            Some(JsonValue::Str(s)) => r is Some && r->0@ == s@,
            _ => r is None,
        },
{
    string_at(response, "name")
}

/// A project as the resource manager lists it.
pub struct Project {
    pub project_id: String,
    pub name: String,
    pub project_number: String,
    pub lifecycle_state: String,
}

/// A string member of a listed project, or `default` when absent.
pub open spec fn string_or(v: JsonValue, key: Seq<char>, default: Seq<char>) -> Seq<char> {
    match value_at(v, split_dots(key)) {
        Some(JsonValue::Str(s)) => s@,
        _ => default,
    }
}

fn string_or_exec(v: &JsonValue, key: &str, default: &str) -> (r: String)
    ensures
        r@ == string_or(*v, key@, default@),
{
    match string_at(v, key) {
        Some(s) => s,
        None => String::from_str(default),
    }
}

impl Project {
    /// Reads a listed project; absent names read as `-`, an absent state as
    /// `UNKNOWN`.
    pub fn from_value(v: &JsonValue) -> (r: Project)
        ensures
            r.project_id@ == string_or(*v, "projectId"@, "-"@),
            r.name@ == string_or(*v, "name"@, "-"@),
            r.project_number@ == string_or(*v, "projectNumber"@, "-"@),
            r.lifecycle_state@ == string_or(*v, "lifecycleState"@, "UNKNOWN"@),
    {
        Project {
            project_id: string_or_exec(v, "projectId", "-"),
            name: string_or_exec(v, "name", "-"),
            project_number: string_or_exec(v, "projectNumber", "-"),
            lifecycle_state: string_or_exec(v, "lifecycleState", "UNKNOWN"),
        }
    }
}

/// Whether a listed project is active.
pub open spec fn is_active(v: JsonValue) -> bool {
    match value_at(v, split_dots("lifecycleState"@)) {
        Some(JsonValue::Str(s)) => s@ == "ACTIVE"@,
        _ => false,
    }
}

/// The active projects of a project listing, in listed order.
pub open spec fn active_of(items: Seq<JsonValue>) -> Seq<JsonValue>
    decreases items.len(),
{
    if items.len() == 0 {
        Seq::empty()
    } else {
        let p = active_of(items.drop_last());
        if is_active(items.last()) {
            p.push(items.last())
        } else {
            p
        }
    }
}

/// The active projects of a project listing response (its `projects` list).
pub fn active_projects(response: &JsonValue) -> (r: Vec<Project>)
    ensures
        match value_at(*response, split_dots("projects"@)) {
            Some(JsonValue::Array(items)) => r@.len() == active_of(items@).len() && forall|k: int|
                0 <= k < r@.len() ==> #[trigger] r@[k].project_id@ == string_or(
                    active_of(items@)[k],
                    "projectId"@,
                    "-"@,
                ),
            _ => r@.len() == 0,
        },
{
    let mut out: Vec<Project> = Vec::new();
    match value_at_path(response, "projects") {
        Some(JsonValue::Array(items)) => {
            let mut i: usize = 0;
            proof {
                assert(items@.subrange(0, 0) =~= Seq::<JsonValue>::empty());
            }
            while i < items.len()
                invariant
                    i <= items@.len(),
                    out@.len() == active_of(items@.subrange(0, i as int)).len(),
                    forall|k: int|
                        0 <= k < out@.len() ==> #[trigger] out@[k].project_id@ == string_or(
                            active_of(items@.subrange(0, i as int))[k],
                            "projectId"@,
                            "-"@,
                        ),
                decreases items@.len() - i,
            {
                proof {
                    assert(items@.subrange(0, i as int + 1).drop_last() =~= items@.subrange(0, i as int));
                    assert(items@.subrange(0, i as int + 1).last() == items@[i as int]);
                }
                let active = match string_at(&items[i], "lifecycleState") {
                    Some(st) => str_eq(st.as_str(), "ACTIVE"),
                    None => false,
                };
                if active {
                    out.push(Project::from_value(&items[i]));
                }
                i = i + 1;
            }
            proof {
                assert(items@.subrange(0, items@.len() as int) =~= items@);
            }
        },
        _ => {},
    }
    out
}

} // verus!
