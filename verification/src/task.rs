//! The task record: identity, name, priority, and lifecycle status.

use vstd::prelude::*;

verus! {

/// Lifecycle state of a task. A task starts `Pending`, is moved to
/// `Processing` when a worker picks it up, and ends in exactly one terminal
/// state: `Completed`, or `Failed` with a reason.
#[derive(Debug)]
pub enum TaskStatus {
    Pending,
    Processing,
    Completed,
    Failed(String),
}

/// Mathematical image of a `TaskStatus`: the failure reason is abstracted to
/// a sequence of characters.
pub enum StatusView {
    Pending,
    Processing,
    Completed,
    Failed(Seq<char>),
}

impl View for TaskStatus {
    type V = StatusView;

    open spec fn view(&self) -> StatusView {
        match self {
            TaskStatus::Pending => StatusView::Pending,
            TaskStatus::Processing => StatusView::Processing,
            TaskStatus::Completed => StatusView::Completed,
            TaskStatus::Failed(reason) => StatusView::Failed(reason@),
        }
    }
}

/// A status from which no further transition is allowed.
pub open spec fn terminal(s: StatusView) -> bool {
    s is Completed || s is Failed
}

/// The one-step lifecycle order: `Pending` may only move to `Processing`,
/// and `Processing` may only move to a terminal state. In particular a task
/// can never skip `Processing`, and a terminal status can never change.
pub open spec fn status_step(pre: StatusView, post: StatusView) -> bool {
    ||| (pre is Pending && post is Processing)
    ||| (pre is Processing && terminal(post))
}

impl Clone for TaskStatus {
    fn clone(&self) -> (r: Self)
        ensures
            r == *self,
    {
        match self {
            TaskStatus::Pending => TaskStatus::Pending,
            TaskStatus::Processing => TaskStatus::Processing,
            TaskStatus::Completed => TaskStatus::Completed,
            TaskStatus::Failed(reason) => TaskStatus::Failed(reason.clone()),
        }
    }
}

impl TaskStatus {
    pub fn is_pending(&self) -> (r: bool)
        ensures
            r == (self@ is Pending),
    {
        matches!(self, TaskStatus::Pending)
    }

    pub fn is_processing(&self) -> (r: bool)
        ensures
            r == (self@ is Processing),
    {
        matches!(self, TaskStatus::Processing)
    }

    pub fn is_completed(&self) -> (r: bool)
        ensures
            r == (self@ is Completed),
    {
        matches!(self, TaskStatus::Completed)
    }

    pub fn is_failed(&self) -> (r: bool)
        ensures
            r == (self@ is Failed),
    {
        matches!(self, TaskStatus::Failed(_))
    }

    /// Whether the status is `Completed` or `Failed`.
    pub fn is_terminal(&self) -> (r: bool)
        ensures
            r == terminal(self@),
    {
        matches!(self, TaskStatus::Completed | TaskStatus::Failed(_))
    }
}

/// A unit of submitted work, tracked by identity and lifecycle status.
/// `name` and `priority` are immutable after creation; `priority` is stored
/// but does not affect dispatch order.
#[derive(Debug)]
pub struct Task {
    pub id: u128,
    pub name: String,
    pub priority: i32,
    pub status: TaskStatus,
}

/// Mathematical image of a `Task`.
pub struct TaskView {
    pub id: u128,
    pub name: Seq<char>,
    pub priority: i32,
    pub status: StatusView,
}

impl View for Task {
    type V = TaskView;

    open spec fn view(&self) -> TaskView {
        TaskView { id: self.id, name: self.name@, priority: self.priority, status: self.status@ }
    }
}

impl Clone for Task {
    fn clone(&self) -> (r: Self)
        ensures
            r == *self,
    {
        Task {
            id: self.id,
            name: self.name.clone(),
            priority: self.priority,
            status: self.status.clone(),
        }
    }
}

impl Task {
    /// A freshly created task: it always starts `Pending`.
    pub fn new(id: u128, name: String, priority: i32) -> (t: Task)
        ensures
            t@ == (TaskView { id, name: name@, priority, status: StatusView::Pending }),
    {
        Task { id, name, priority, status: TaskStatus::Pending }
    }
}

/// What a caller hands to the engine when submitting work.
#[derive(Debug)]
pub struct CreateTaskRequest {
    pub name: String,
    pub priority: i32,
}

impl Clone for CreateTaskRequest {
    fn clone(&self) -> (r: Self)
        ensures
            r == *self,
    {
        CreateTaskRequest { name: self.name.clone(), priority: self.priority }
    }
}

} // verus!
