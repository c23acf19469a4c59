//! The collection of tasks and the operations on it.

use vstd::prelude::*;
use crate::task::{Task, TaskView};
use crate::timestamp::Timestamp;
use crate::record::{row_of, task_of_row, Row, RowView};
use crate::text::{list_lines, task_line, task_line_text, texts_of};

verus! {

/// Every task has an id, and the ids strictly increase along the sequence. In
/// particular no id occurs twice.
pub open spec fn ordered(s: Seq<TaskView>) -> bool {
    &&& forall|i: int| 0 <= i < s.len() ==> (#[trigger] s[i]).id.is_some()
    &&& forall|i: int, j: int|
        0 <= i < j < s.len() ==> (#[trigger] s[i]).id.unwrap() < (#[trigger] s[j]).id.unwrap()
}

/// Whether some task of `s` has the id `id`.
pub open spec fn has_id(s: Seq<TaskView>, id: usize) -> bool {
    exists|i: int| 0 <= i < s.len() && (#[trigger] s[i]).id == Some(id)
}

/// The place of a task with the id `id`; meaningful where `has_id(s, id)`.
pub open spec fn position_of(s: Seq<TaskView>, id: usize) -> int {
    choose|i: int| 0 <= i < s.len() && (#[trigger] s[i]).id == Some(id)
}

/// No task has an id above `last`, the greatest id that was ever given out.
pub open spec fn bounded(s: Seq<TaskView>, last: usize) -> bool {
    forall|i: int| 0 <= i < s.len() ==> (#[trigger] s[i]).id.unwrap() <= last
}

/// The id that the next task gets: one more than the greatest id that was
/// ever given out, whether or not the task that had it is still there.
pub open spec fn next_id(last: usize) -> int {
    last + 1
}

/// The task that `add` appends when `last` is the greatest id given out so
/// far.
pub open spec fn added_task(last: usize, description: Seq<char>, now: Timestamp) -> TaskView {
    TaskView {
        id: Some(next_id(last) as usize),
        description,
        done: false,
        created_at: now,
        updated_at: now,
    }
}

/// `s` after a task with the given description was added at the instant `now`.
pub open spec fn with_added(
    s: Seq<TaskView>,
    last: usize,
    description: Seq<char>,
    now: Timestamp,
) -> Seq<TaskView> {
    s.push(added_task(last, description, now))
}

/// `t` marked done at the instant `now`.
pub open spec fn completed(t: TaskView, now: Timestamp) -> TaskView {
    TaskView { done: true, updated_at: now, ..t }
}

/// `s` after the task with the id `id` was marked done at the instant `now`;
/// `s` itself where no task has that id.
pub open spec fn with_completed(s: Seq<TaskView>, id: usize, now: Timestamp) -> Seq<TaskView> {
    Seq::new(
        s.len(),
        |i: int|
            if s[i].id == Some(id) {
                completed(s[i], now)
            } else {
                s[i]
            },
    )
}

/// `s` without the task that has the id `id`; `s` itself where none has it.
pub open spec fn without(s: Seq<TaskView>, id: usize) -> Seq<TaskView> {
    if has_id(s, id) {
        s.remove(position_of(s, id))
    } else {
        s
    }
}

/// The views of a sequence of tasks.
pub open spec fn views_of(s: Seq<Task>) -> Seq<TaskView> {
    s.map_values(|t: Task| t@)
}

/// The rows that store the tasks of `s`, in the same order.
pub open spec fn saved_rows(s: Seq<TaskView>) -> Seq<RowView> {
    Seq::new(s.len(), |i: int| row_of(s[i]))
}

/// Whether a collection that holds `prev` takes `row` in: the row must stand
/// for a task, and its id must be greater than the last one, so that the
/// collection stays ordered.
pub open spec fn accepts(prev: Seq<TaskView>, row: RowView) -> bool {
    task_of_row(row).is_some() && (prev.len() == 0 || prev.last().id.unwrap() < row.id)
}

/// The collection that a sequence of records gives. `None` stands for a record
/// that could not be read. Such a record is passed over, and so is a row with
/// a timestamp that is no timestamp, and a row whose id does not continue the
/// ascending order.
pub open spec fn loaded(records: Seq<Option<RowView>>) -> Seq<TaskView>
    decreases records.len(),
{
    if records.len() == 0 {
        Seq::empty()
    } else {
        let prev = loaded(records.drop_last());
        match records.last() {
            Some(row) => if accepts(prev, row) {
                prev.push(task_of_row(row).unwrap())
            } else {
                prev
            },
            None => prev,
        }
    }
}

/// The greatest id given out so far, for a collection that was loaded: what
/// the store recorded, or the greatest id among the tasks where that is more.
pub open spec fn last_of_loaded(tasks: Seq<TaskView>, recorded: usize) -> usize {
    if tasks.len() > 0 && tasks.last().id.unwrap() > recorded {
        tasks.last().id.unwrap()
    } else {
        recorded
    }
}

/// The views of a sequence of rows.
pub open spec fn row_views_of(s: Seq<Row>) -> Seq<RowView> {
    s.map_values(|r: Row| r@)
}

/// The views of a sequence of records.
pub open spec fn record_views_of(s: Seq<Option<Row>>) -> Seq<Option<RowView>> {
    s.map_values(
        |r: Option<Row>|
            match r {
                Some(row) => Some(row@),
                None => None,
            },
    )
}

/// The tasks of one list, in ascending order of their ids, and the greatest
/// id that was ever given out in it.
pub struct TaskManager {
    tasks: Vec<Task>,
    last: usize,
}

impl View for TaskManager {
    type V = Seq<TaskView>;

    closed spec fn view(&self) -> Seq<TaskView> {
        views_of(self.tasks@)
    }
}

impl TaskManager {
    /// The greatest id that was ever given out, 0 where none was. It stays
    /// when the task that has it is removed, so that no id is given twice.
    pub closed spec fn last_assigned(&self) -> usize {
        self.last
    }

    /// The collection's invariant: see `ordered` and `bounded`.
    pub open spec fn well_formed(&self) -> bool {
        ordered(self@) && bounded(self@, self.last_assigned())
    }

    /// An empty collection in which no id was given out yet.
    pub fn new() -> (r: TaskManager)
        ensures
            r@ == Seq::<TaskView>::empty(),
            r.last_assigned() == 0,
            r.well_formed(),
    {
        let r = TaskManager { tasks: Vec::new(), last: 0 };
        assert(r@ =~= Seq::<TaskView>::empty());
        r
    }

    /// The greatest id that was ever given out, 0 where none was.
    pub fn last_id(&self) -> (r: usize)
        ensures
            r == self.last_assigned(),
    {
        self.last
    }

    /// The number of tasks.
    pub fn len(&self) -> (r: usize)
        ensures
            r == self@.len(),
    {
        self.tasks.len()
    }

    /// The id that `add_task_at` would assign, or `None` where the greatest id
    /// given out is the greatest that the machine can hold.
    pub fn next_free_id(&self) -> (r: Option<usize>)
        ensures
            r.is_some() == (next_id(self.last_assigned()) <= usize::MAX),
            r matches Some(id) ==> id == next_id(self.last_assigned()),
    {
        if self.last < usize::MAX {
            Some(self.last + 1)
        } else {
            None
        }
    }

    /// Appends a task with the given description, made at the instant `now`,
    /// and returns its id: one more than the greatest id ever given out, which
    /// it then is.
    pub fn add_task_at(&mut self, description: String, now: Timestamp) -> (id: usize)
        requires
            old(self).well_formed(),
            next_id(old(self).last_assigned()) <= usize::MAX,
        ensures
            final(self).well_formed(),
            id == old(self).last_assigned() + 1,
            final(self).last_assigned() == id,
            final(self)@ == with_added(old(self)@, old(self).last_assigned(), description@, now),
    {
        let id = self.last + 1;
        let task = Task { id: Some(id), description, done: false, created_at: now, updated_at: now };
        self.tasks.push(task);
        self.last = id;
        proof {
            let before = old(self)@;
            assert(self@ =~= with_added(before, old(self).last_assigned(), description@, now));
            assert forall|i: int, j: int| 0 <= i < j < self@.len() implies (
            #[trigger] self@[i]).id.unwrap() < (#[trigger] self@[j]).id.unwrap() by {
                assert(self@[i] == before[i]);
                if j < before.len() {
                    assert(self@[j] == before[j]);
                }
            }
            assert forall|i: int| 0 <= i < self@.len() implies (#[trigger] self@[i]).id.unwrap()
                <= id by {
                if i < before.len() {
                    assert(self@[i] == before[i]);
                }
            }
        }
        id
    }

    /// Appends a task with the given description, made at the current time of
    /// the system clock, and returns its id. The new task is the last one; the
    /// instant it carries is whatever the clock gave.
    pub fn add_task(&mut self, description: String) -> (id: usize)
        requires
            old(self).well_formed(),
            next_id(old(self).last_assigned()) <= usize::MAX,
        ensures
            final(self).well_formed(),
            id == old(self).last_assigned() + 1,
            final(self).last_assigned() == id,
            final(self)@ == with_added(
                old(self)@,
                old(self).last_assigned(),
                description@,
                final(self)@.last().created_at,
            ),
    {
        self.add_task_at(description, Timestamp::now())
    }

    /// Marks the task with the id `id` done and sets its time of last update
    /// to `now`. Returns whether there was such a task.
    pub fn complete_task_at(&mut self, id: usize, now: Timestamp) -> (found: bool)
        requires
            old(self).well_formed(),
        ensures
            final(self).well_formed(),
            final(self).last_assigned() == old(self).last_assigned(),
            found == has_id(old(self)@, id),
            final(self)@ == with_completed(old(self)@, id, now),
    {
        let n = self.tasks.len();
        let mut i: usize = 0;
        while i < n
            invariant
                n == self.tasks.len(),
                i <= n,
                *self == *old(self),
                self.well_formed(),
                forall|k: int| 0 <= k < i ==> (#[trigger] self@[k]).id != Some(id),
            decreases n - i,
        {
            assert(self@[i as int] == self.tasks@[i as int]@);
            let hit = match self.tasks[i].id {
                Some(x) => x == id,
                None => false,
            };
            if hit {
                let t = &self.tasks[i];
                let updated = Task {
                    id: t.id,
                    description: t.description.clone(),
                    done: true,
                    created_at: t.created_at,
                    updated_at: now,
                };
                self.tasks.set(i, updated);
                proof {
                    let before = old(self)@;
                    assert(before[i as int].id == Some(id));
                    assert forall|k: int| 0 <= k < before.len() && k != i implies (
                    #[trigger] before[k]).id != Some(id) by {
                        if k < i {
                        } else {
                            assert(before[i as int].id.unwrap() < before[k].id.unwrap());
                        }
                    }
                    assert(self@ =~= with_completed(before, id, now));
                }
                return true;
            }
            i += 1;
        }
        proof {
            assert(self@ =~= with_completed(old(self)@, id, now));
        }
        false
    }

    /// Marks the task with the id `id` done, at the current time of the system
    /// clock. Returns whether there was such a task; where there was none, the
    /// collection is as before.
    pub fn complete_task(&mut self, id: usize) -> (found: bool)
        requires
            old(self).well_formed(),
        ensures
            final(self).well_formed(),
            final(self).last_assigned() == old(self).last_assigned(),
            found == has_id(old(self)@, id),
            !found ==> final(self)@ == old(self)@,
            found ==> final(self)@ == with_completed(
                old(self)@,
                id,
                final(self)@[position_of(old(self)@, id)].updated_at,
            ),
    {
        let now = Timestamp::now();
        let found = self.complete_task_at(id, now);
        proof {
            let before = old(self)@;
            if found {
                let p = position_of(before, id);
                assert(self@[p].updated_at == now);
            } else {
                assert(self@ =~= before);
            }
        }
        found
    }

    /// Takes the task with the id `id` out. Returns whether there was such a
    /// task. The other tasks keep their ids and their order.
    pub fn remove_task(&mut self, id: usize) -> (found: bool)
        requires
            old(self).well_formed(),
        ensures
            final(self).well_formed(),
            final(self).last_assigned() == old(self).last_assigned(),
            found == has_id(old(self)@, id),
            final(self)@ == without(old(self)@, id),
    {
        let n = self.tasks.len();
        let mut i: usize = 0;
        while i < n
            invariant
                n == self.tasks.len(),
                i <= n,
                *self == *old(self),
                self.well_formed(),
                forall|k: int| 0 <= k < i ==> (#[trigger] self@[k]).id != Some(id),
            decreases n - i,
        {
            assert(self@[i as int] == self.tasks@[i as int]@);
            let hit = match self.tasks[i].id {
                Some(x) => x == id,
                None => false,
            };
            if hit {
                let _ = self.tasks.remove(i);
                proof {
                    let before = old(self)@;
                    assert(before[i as int].id == Some(id));
                    lemma_position_is_unique(before, id, i as int);
                    assert(self@ =~= before.remove(i as int));
                }
                return true;
            }
            i += 1;
        }
        false
    }

    /// The lines that a list of the collection shows.
    pub fn list_tasks(&self) -> (r: Vec<String>)
        ensures
            texts_of(r@) == list_lines(self@),
    {
        let mut out: Vec<String> = Vec::new();
        let n = self.tasks.len();
        if n == 0 {
            out.push(String::from_str("No tasks in the to-do list."));
            assert(texts_of(out@) =~= list_lines(self@));
            return out;
        }
        let mut i: usize = 0;
        while i < n
            invariant
                n == self.tasks.len(),
                i <= n,
                out@.len() == i,
                forall|k: int| 0 <= k < i ==> (#[trigger] out@[k])@ == task_line(self.tasks@[k]@),
            decreases n - i,
        {
            out.push(task_line_text(&self.tasks[i]));
            i += 1;
        }
        assert(texts_of(out@) =~= list_lines(self@));
        out
    }

    /// A copy of every task, in the collection's order.
    pub fn get_all_tasks(&self) -> (r: Vec<Task>)
        ensures
            views_of(r@) == self@,
    {
        let mut out: Vec<Task> = Vec::new();
        let n = self.tasks.len();
        let mut i: usize = 0;
        while i < n
            invariant
                n == self.tasks.len(),
                i <= n,
                out@.len() == i,
                forall|k: int| 0 <= k < i ==> (#[trigger] out@[k])@ == self.tasks@[k]@,
            decreases n - i,
        {
            out.push(self.tasks[i].duplicate());
            i += 1;
        }
        assert(views_of(out@) =~= self@);
        out
    }
}

/// The rows that store the collection, one for each task, in its order.
pub fn save_tasks(manager: &TaskManager) -> (r: Vec<Row>)
    requires
        manager.well_formed(),
    ensures
        row_views_of(r@) == saved_rows(manager@),
{
    let mut out: Vec<Row> = Vec::new();
    let n = manager.tasks.len();
    let mut i: usize = 0;
    while i < n
        invariant
            manager.well_formed(),
            n == manager.tasks.len(),
            i <= n,
            out@.len() == i,
            forall|k: int| 0 <= k < i ==> (#[trigger] out@[k])@ == row_of(manager.tasks@[k]@),
        decreases n - i,
    {
        assert(manager@[i as int] == manager.tasks@[i as int]@);
        let row = manager.tasks[i].to_row();
        out.push(row.unwrap());
        i += 1;
    }
    assert(row_views_of(out@) =~= saved_rows(manager@));
    out
}

/// Builds the collection from stored records and from the greatest id that
/// the store recorded as given out. Returns the collection and the number of
/// records that were passed over as malformed.
pub fn load_tasks(records: &Vec<Option<Row>>, recorded: usize) -> (r: (TaskManager, usize))
    ensures
        r.0.well_formed(),
        r.0@ == loaded(record_views_of(records@)),
        r.0.last_assigned() == last_of_loaded(r.0@, recorded),
        r.1 == records.len() - r.0@.len(),
{
    let ghost all = record_views_of(records@);
    let mut manager = TaskManager { tasks: Vec::new(), last: recorded };
    let mut skipped: usize = 0;
    let n = records.len();
    let mut i: usize = 0;
    proof {
        assert(all.subrange(0, 0) =~= Seq::<Option<RowView>>::empty());
        assert(manager@ =~= Seq::<TaskView>::empty());
    }
    while i < n
        invariant
            n == records.len(),
            i <= n,
            all == record_views_of(records@),
            manager.well_formed(),
            manager@ == loaded(all.subrange(0, i as int)),
            manager.last_assigned() == last_of_loaded(manager@, recorded),
            skipped + manager@.len() == i,
            manager@.len() == manager.tasks.len(),
        decreases n - i,
    {
        let ghost prev = manager@;
        proof {
            assert(all.subrange(0, i + 1).drop_last() =~= all.subrange(0, i as int));
            assert(all.subrange(0, i + 1).last() == all[i as int]);
        }
        let m = manager.tasks.len();
        let mut taken = false;
        match &records[i] {
            Some(row) => {
                let mut in_order = false;
                if m == 0 {
                    in_order = true;
                } else {
                    assert(manager@[m - 1] == manager.tasks@[m - 1]@);
                    match manager.tasks[m - 1].id {
                        Some(last) => {
                            in_order = last < row.id;
                        },
                        None => {},
                    }
                }
                if in_order {
                    match Task::from_row(row) {
                        Some(task) => {
                            manager.tasks.push(task);
                            if row.id > manager.last {
                                manager.last = row.id;
                            }
                            taken = true;
                            proof {
                                let now = manager@;
                                assert(now =~= prev.push(task_of_row(row@).unwrap()));
                                assert forall|a: int, b: int| 0 <= a < b < now.len() implies (
                                #[trigger] now[a]).id.unwrap() < (#[trigger] now[b]).id.unwrap() by {
                                    assert(now[a] == prev[a]);
                                    if b < prev.len() {
                                        assert(now[b] == prev[b]);
                                    } else if a < prev.len() - 1 {
                                        assert(prev[a].id.unwrap() < prev[prev.len() - 1].id.unwrap());
                                    }
                                }
                                assert forall|a: int| 0 <= a < now.len() implies (
                                #[trigger] now[a]).id.unwrap() <= manager.last_assigned() by {
                                    if a < prev.len() {
                                        assert(now[a] == prev[a]);
                                    }
                                }
                            }
                        },
                        None => {},
                    }
                }
                assert(taken == accepts(prev, row@));
            },
            None => {},
        }
        if !taken {
            skipped += 1;
        }
        i += 1;
    }
    proof {
        assert(all.subrange(0, n as int) =~= all);
    }
    (manager, skipped)
}

/// In an ordered collection at most one task has a given id, so a task found
/// with that id is the one that `position_of` names.
pub proof fn lemma_position_is_unique(s: Seq<TaskView>, id: usize, i: int)
    requires
        ordered(s),
        0 <= i < s.len(),
        s[i].id == Some(id),
    ensures
        has_id(s, id),
        position_of(s, id) == i,
{
    let p = position_of(s, id);
    if p < i {
        assert(s[p].id.unwrap() < s[i].id.unwrap());
    } else if i < p {
        assert(s[i].id.unwrap() < s[p].id.unwrap());
    }
}

} // verus!
