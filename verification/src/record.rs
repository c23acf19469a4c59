//! Stored records: one row of the table `tasks` for each task, with the
//! timestamps as RFC 3339 text.

use vstd::prelude::*;
use crate::task::{Task, TaskView};
use crate::timestamp::{rfc3339_text, Timestamp};

verus! {

/// One row of the table, column by column.
#[derive(Clone, Debug, PartialEq, Eq)]
pub struct Row {
    pub id: usize,
    pub description: String,
    pub done: bool,
    pub created_at: String,
    pub updated_at: String,
}

/// What a row holds, with its texts as sequences of characters.
pub struct RowView {
    pub id: usize,
    pub description: Seq<char>,
    pub done: bool,
    pub created_at: Seq<char>,
    pub updated_at: Seq<char>,
}

impl View for Row {
    type V = RowView;

    open spec fn view(&self) -> RowView {
        RowView {
            id: self.id,
            description: self.description@,
            done: self.done,
            created_at: self.created_at@,
            updated_at: self.updated_at@,
        }
    }
}

/// The task that a row stands for, or `None` where one of its two timestamps
/// is not RFC 3339 text: such a row is malformed.
pub open spec fn task_of_row(row: RowView) -> Option<TaskView> {
    match (Timestamp::parsed(row.created_at), Timestamp::parsed(row.updated_at)) {
        (Some(created_at), Some(updated_at)) => Some(
            TaskView {
                id: Some(row.id),
                description: row.description,
                done: row.done,
                created_at,
                updated_at,
            },
        ),
        _ => None,
    }
}

/// The row that stores a task which has an id.
pub open spec fn row_of(t: TaskView) -> RowView {
    RowView {
        id: t.id.unwrap(),
        description: t.description,
        done: t.done,
        created_at: rfc3339_text(t.created_at.seconds(), t.created_at.subsec_nanos()),
        updated_at: rfc3339_text(t.updated_at.seconds(), t.updated_at.subsec_nanos()),
    }
}

impl Task {
    /// The task that a row stands for, or `None` for a malformed row.
    pub fn from_row(row: &Row) -> (r: Option<Task>)
        ensures
            r.is_some() == task_of_row(row@).is_some(),
            r matches Some(t) ==> Some(t@) == task_of_row(row@),
    {
        match Timestamp::parse_rfc3339(row.created_at.as_str()) {
            Some(created_at) => match Timestamp::parse_rfc3339(row.updated_at.as_str()) {
                Some(updated_at) => Some(
                    Task {
                        id: Some(row.id),
                        description: row.description.clone(),
                        done: row.done,
                        created_at,
                        updated_at,
                    },
                ),
                None => None,
            },
            None => None,
        }
    }

    /// The row that stores the task, or `None` for a task without an id.
    pub fn to_row(&self) -> (r: Option<Row>)
        ensures
            r.is_some() == self.id.is_some(),
            r matches Some(row) ==> row@ == row_of(self@),
    {
        match self.id {
            Some(id) => Some(
                Row {
                    id,
                    description: self.description.clone(),
                    done: self.done,
                    created_at: self.created_at.to_rfc3339(),
                    updated_at: self.updated_at.to_rfc3339(),
                },
            ),
            None => None,
        }
    }
}

} // verus!
