//! The task entity: the one record kind the service manages.

use vstd::prelude::*;

verus! {

/// A stored task row. `task_id` is assigned by the store and never reused;
/// `name` is required on creation; `priority` may be absent (JSON null).
pub struct Task {
    pub task_id: i32,
    pub name: String,
    pub priority: Option<i32>,
}

impl Task {
    /// Builds a task from its three fields.
    pub fn new(task_id: i32, name: String, priority: Option<i32>) -> (t: Task)
        ensures
            t == (Task { task_id, name, priority }),
    {
        Task { task_id, name, priority }
    }

    /// An equal copy of the row.
    pub fn duplicate(&self) -> (t: Task)
        ensures
            t == *self,
    {
        Task { task_id: self.task_id, name: self.name.clone(), priority: self.priority }
    }
}

} // verus!
