//! The task: the one record the service keeps.

use vstd::prelude::*;

verus! {

/// A task as the store holds it.
#[derive(Debug, PartialEq, Eq)]
pub struct Task {
    /// The identifier that the store assigned when the task was created.
    pub id: i64,
    /// The text of the task, fixed at creation.
    pub title: String,
    /// Whether the task was marked as done.
    pub done: bool,
}

/// The mathematical value of a [`Task`].
pub struct TaskView {
    pub id: int,
    pub title: Seq<char>,
    pub done: bool,
}

impl View for Task {
    type V = TaskView;

    open spec fn view(&self) -> TaskView {
        TaskView { id: self.id as int, title: self.title@, done: self.done }
    }
}

impl Clone for Task {
    fn clone(&self) -> (r: Task)
        ensures
            r@ == self@,
    {
        Task { id: self.id, title: self.title.clone(), done: self.done }
    }
}

/// The values of a sequence of tasks, in the same order.
pub open spec fn views(tasks: Seq<Task>) -> Seq<TaskView> {
    tasks.map_values(|t: Task| t@)
}

/// A title is acceptable for a new task when it is not empty.
pub open spec fn valid_title(title: Seq<char>) -> bool {
    title.len() > 0
}

/// Whether `title` is acceptable for a new task.
pub fn title_is_valid(title: &str) -> (r: bool)
    ensures
        r == valid_title(title@),
{
    !title.is_empty()
}

} // verus!
