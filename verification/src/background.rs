//! Background tasks: the registry view and manual runs.

use crate::error;
use crate::text;
use vstd::prelude::*;

verus! {

/// One background task with its latest state.
#[derive(Debug)]
pub struct BackgroundTaskRow {
    /// Name.
    pub name: String,
    /// Seconds between runs.
    pub interval_secs: u64,
    /// Time of the last run, Unix seconds.
    pub last_run_at: Option<i64>,
    /// How the last run ended.
    pub last_status: Option<String>,
    /// What the last run did.
    pub last_summary: Option<String>,
    /// Failures in a row.
    pub consecutive_failures: u32,
}

/// Every background task.
#[derive(Debug)]
pub struct BackgroundTasksResponse {
    /// The tasks.
    pub tasks: Vec<BackgroundTaskRow>,
}

/// The answer to a manual run.
#[derive(Debug)]
pub struct RunAck {
    /// The task.
    pub task: String,
    /// Whether it was run.
    pub triggered: bool,
}

/// Position of the first task called `name` among the first `n`.
pub open spec fn task_at(names: Seq<Seq<char>>, name: Seq<char>, i: int) -> bool {
    &&& 0 <= i < names.len()
    &&& names[i] == name
    &&& forall|j: int| 0 <= j < i ==> #[trigger] names[j] != name
}

/// Finds the task to run; an unknown name is an error.
pub fn find_task(names: &Vec<String>, name: &str) -> (r: Result<usize, error::ApiError>)
    ensures
        match r {
            Ok(i) => task_at(text::texts(names@), name@, i as int),
            Err(e) => !text::texts(names@).contains(name@) && e@ == error::ErrorView::NotFound(
                "background task "@ + name@,
            ),
        },
{
    let mut i: usize = 0;
    while i < names.len()
        invariant
            i <= names@.len(),
            forall|j: int| 0 <= j < i ==> #[trigger] text::texts(names@)[j] != name@,
        decreases names@.len() - i,
    {
        if text::same_text(names[i].as_str(), name) {
            return Ok(i);
        }
        i = i + 1;
    }
    let mut m = text::owned("background task ");
    m.append(name);
    Err(error::ApiError::NotFound(m))
}

/// The answer to a manual run.
pub fn run_ack(name: String) -> (r: RunAck)
    ensures
        r == (RunAck { task: name, triggered: true }),
{
    RunAck { task: name, triggered: true }
}

/// The task that is found is the only one of its name before or at its place.
pub proof fn law_first_task(names: Seq<Seq<char>>, name: Seq<char>, i: int, k: int)
    requires
        task_at(names, name, i),
    ensures
        0 <= i < names.len(),
        names[i] == name,
        task_at(names, name, k) ==> k == i,
        0 <= k < names.len() && names[k] == name ==> i <= k,
{
    if 0 <= k < i {
        assert(names[k] != name);
    }
    if task_at(names, name, k) && i < k {
        assert(names[i] != name);
    }
}

} // verus!
