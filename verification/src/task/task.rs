use vstd::prelude::*;
use super::context::TaskContext;

verus! {

/// The life-cycle state of a task.
#[derive(Clone, Copy, PartialEq, Eq, Structural, Debug)]
pub enum TaskStatus {
    /// Not (yet) holding an application.
    UnInit,
    /// Waiting to be scheduled.
    Ready,
    /// Currently on the hart.
    Running,
    /// Finished; never scheduled again.
    Exited,
}

/// What the kernel keeps of one task.
#[derive(Clone, Copy)]
pub struct TaskControlBlock {
    pub task_status: TaskStatus,
    pub task_cx: TaskContext,
}

} // verus!
