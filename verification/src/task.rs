//! Tasks: their outcomes, and what carries a task identifier.

use vstd::prelude::*;
use crate::identifier::TaskId;

verus! {

/// The outcome of task.
#[derive(Debug, Clone, Copy, PartialEq, Eq, Structural)]
pub enum TaskOutcome {
    /// the task executed successfully
    Executed,
    /// The task was skipped
    Skipped,
    /// The task was up to date
    UpToDate,
    /// The task had no source
    NoSource,
    /// The task failed
    Failed,
}

/// Represents an object that has a task id
pub trait HasTaskId {
    /// Gets the task id
    fn task_id(&self) -> TaskId;
}

} // verus!
