//! The task record.

use vstd::prelude::*;
use crate::timestamp::Timestamp;

verus! {

/// One entry of the list. A task has no id until a collection has taken it in.
#[derive(Clone, Debug, PartialEq, Eq)]
pub struct Task {
    pub id: Option<usize>,
    pub description: String,
    pub done: bool,
    pub created_at: Timestamp,
    pub updated_at: Timestamp,
}

/// What a task is, with its description as a sequence of characters.
pub struct TaskView {
    pub id: Option<usize>,
    pub description: Seq<char>,
    pub done: bool,
    pub created_at: Timestamp,
    pub updated_at: Timestamp,
}

impl View for Task {
    type V = TaskView;

    open spec fn view(&self) -> TaskView {
        TaskView {
            id: self.id,
            description: self.description@,
            done: self.done,
            created_at: self.created_at,
            updated_at: self.updated_at,
        }
    }
}

/// A task as it is when first made at the instant `now`: without an id, not
/// done, created and last updated at `now`.
pub open spec fn fresh_task(description: Seq<char>, now: Timestamp) -> TaskView {
    TaskView { id: None, description, done: false, created_at: now, updated_at: now }
}

impl Task {
    /// A new task made at the instant `now`.
    pub fn new_at(description: String, now: Timestamp) -> (r: Task)
        ensures
            r@ == fresh_task(description@, now),
    {
        Task { id: None, description, done: false, created_at: now, updated_at: now }
    }

    /// A new task made at the current time of the system clock. Which instant
    /// that is cannot be said in advance; both timestamps hold it.
    pub fn new(description: String) -> (r: Task)
        ensures
            r@ == fresh_task(description@, r.created_at),
    {
        Task::new_at(description, Timestamp::now())
    }

    /// A second task with the same contents.
    pub fn duplicate(&self) -> (r: Task)
        ensures
            r@ == self@,
    {
        Task {
            id: self.id,
            description: self.description.clone(),
            done: self.done,
            created_at: self.created_at,
            updated_at: self.updated_at,
        }
    }
}

} // verus!
