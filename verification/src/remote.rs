//! The names under which the remote store knows a task.

use vstd::prelude::*;
use vstd::string::StringExecFns;

use crate::ident::{hyphenated, uuid_text};

verus! {

/// `prefix` followed by the textual form of `id`.
fn named(prefix: &str, id: u128) -> (name: String)
    ensures
        name@ == prefix@ + uuid_text(id),
{
    let text = hyphenated(id);
    prefix.to_owned().concat(text.as_str())
}

/// The key under which the remote store keeps task `id`: `task:` followed by
/// the textual form of the identifier.
pub fn task_key(id: u128) -> (key: String)
    ensures
        key@ == "task:"@ + uuid_text(id),
{
    named("task:", id)
}

/// The path of task `id` in the HTTP interface of the remote store:
/// `/api/tasks/` followed by the textual form of the identifier.
pub fn task_url(id: u128) -> (url: String)
    ensures
        url@ == "/api/tasks/"@ + uuid_text(id),
{
    named("/api/tasks/", id)
}

} // verus!
