//! What holds of the operations taken together, proved from their
//! definitions.

use vstd::prelude::*;
use crate::manager::{
    accepts, added_task, bounded, completed, has_id, lemma_position_is_unique, loaded, next_id,
    ordered, position_of, saved_rows, with_added, with_completed, without,
};
use crate::command::{
    change_after, last_after, lines_after, state_after, ChangeView, CommandView,
};
use crate::record::{task_of_row, RowView};
use crate::task::TaskView;
use crate::text::{list_lines, task_line};
use crate::timestamp::Timestamp;

verus! {

/// In an ordered collection no two tasks share an id.
pub proof fn lemma_ids_are_unique(s: Seq<TaskView>, i: int, j: int)
    requires
        ordered(s),
        0 <= i < s.len(),
        0 <= j < s.len(),
        s[i].id == s[j].id,
    ensures
        i == j,
{
    if i < j {
        assert(s[i].id.unwrap() < s[j].id.unwrap());
    } else if j < i {
        assert(s[j].id.unwrap() < s[i].id.unwrap());
    }
}

/// No command takes a completion back: a task that is done and is still in
/// the collection after a command is still done. For an addition the next id
/// must fit the machine's word, as the addition itself asks.
pub proof fn lemma_done_stays_done(
    s: Seq<TaskView>,
    last: usize,
    c: CommandView,
    now: Timestamp,
    i: int,
    j: int,
)
    requires
        ordered(s),
        bounded(s, last),
        c is Add ==> next_id(last) <= usize::MAX,
        0 <= i < s.len(),
        0 <= j < state_after(s, last, c, now).len(),
        state_after(s, last, c, now)[j].id == s[i].id,
        s[i].done,
    ensures
        state_after(s, last, c, now)[j].done,
{
    let r = state_after(s, last, c, now);
    match c {
        CommandView::Add(d) => {
            if j < s.len() {
                assert(r[j] == s[j]);
                lemma_ids_are_unique(s, i, j);
            } else {
                assert(s[i].id.unwrap() <= last);
            }
        },
        CommandView::Done(id) => {
            assert(r[j].id == s[j].id);
            lemma_ids_are_unique(s, i, j);
        },
        CommandView::Remove(id) => {
            if has_id(s, id) {
                let p = position_of(s, id);
                let j2 = if j < p { j } else { j + 1 };
                assert(r[j] == s[j2]);
                lemma_ids_are_unique(s, i, j2);
            } else {
                lemma_ids_are_unique(s, i, j);
            }
        },
        _ => {
            lemma_ids_are_unique(s, i, j);
        },
    }
}

/// Every command keeps the collection ordered and every id in use at most the
/// greatest id given out. Only an addition moves that greatest id, by one.
pub proof fn lemma_command_keeps_order(s: Seq<TaskView>, last: usize, c: CommandView, now: Timestamp)
    requires
        ordered(s),
        bounded(s, last),
        c is Add ==> next_id(last) <= usize::MAX,
    ensures
        ordered(state_after(s, last, c, now)),
        bounded(state_after(s, last, c, now), last_after(last, c)),
        c is Add ==> last_after(last, c) == last + 1,
        !(c is Add) ==> last_after(last, c) == last,
{
    let r = state_after(s, last, c, now);
    match c {
        CommandView::Add(d) => {
            lemma_add_extends(s, last, d, now);
        },
        CommandView::Done(id) => {
            assert forall|i: int| 0 <= i < r.len() implies (#[trigger] r[i]).id == s[i].id by {}
            assert forall|i: int, j: int| 0 <= i < j < r.len() implies (
            #[trigger] r[i]).id.unwrap() < (#[trigger] r[j]).id.unwrap() by {
                assert(s[i].id.unwrap() < s[j].id.unwrap());
            }
            assert forall|i: int| 0 <= i < r.len() implies (#[trigger] r[i]).id.unwrap() <= last by {
                assert(s[i].id.unwrap() <= last);
            }
        },
        CommandView::Remove(id) => {
            if has_id(s, id) {
                let p = position_of(s, id);
                lemma_remove_present(s, id, p);
                assert forall|i: int| 0 <= i < r.len() implies (#[trigger] r[i]).id.unwrap()
                    <= last by {
                    let i2 = if i < p { i } else { i + 1 };
                    assert(r[i] == s[i2]);
                    assert(s[i2].id.unwrap() <= last);
                }
            }
        },
        _ => {},
    }
}

/// How many of the commands are additions.
pub open spec fn adds_in(run: Seq<(CommandView, Timestamp)>) -> nat
    decreases run.len(),
{
    if run.len() == 0 {
        0
    } else if run.last().0 is Add {
        adds_in(run.drop_last()) + 1
    } else {
        adds_in(run.drop_last())
    }
}

/// The greatest id given out after a run of commands on a new collection; each
/// entry gives a command and the instant at which it is carried out.
pub open spec fn last_after_run(run: Seq<(CommandView, Timestamp)>) -> usize
    decreases run.len(),
{
    if run.len() == 0 {
        0
    } else {
        last_after(last_after_run(run.drop_last()), run.last().0)
    }
}

/// The collection after a run of commands on a new collection.
pub open spec fn tasks_after_run(run: Seq<(CommandView, Timestamp)>) -> Seq<TaskView>
    decreases run.len(),
{
    if run.len() == 0 {
        Seq::empty()
    } else {
        state_after(
            tasks_after_run(run.drop_last()),
            last_after_run(run.drop_last()),
            run.last().0,
            run.last().1,
        )
    }
}

/// Whatever commands are run on a new collection, removals among them, the
/// additions get the ids 1, 2, 3 and so on: each addition gets one more than
/// the greatest id given out before it, so no id is given out twice. The
/// collection stays ordered, and no id in use is above the greatest given out.
pub proof fn lemma_run_counts_up(run: Seq<(CommandView, Timestamp)>)
    requires
        run.len() <= usize::MAX,
    ensures
        adds_in(run) <= run.len(),
        last_after_run(run) == adds_in(run),
        ordered(tasks_after_run(run)),
        bounded(tasks_after_run(run), last_after_run(run)),
        run.len() > 0 && run.last().0 is Add ==> tasks_after_run(run).len() > 0
            && tasks_after_run(run).last().id == Some(adds_in(run) as usize) && adds_in(run)
            == last_after_run(run.drop_last()) + 1,
    decreases run.len(),
{
    if run.len() > 0 {
        let front = run.drop_last();
        lemma_run_counts_up(front);
        lemma_command_keeps_order(
            tasks_after_run(front),
            last_after_run(front),
            run.last().0,
            run.last().1,
        );
    }
}

/// An addition keeps the collection ordered, keeps every task that was there
/// in its place, and gives the new task an id that is greater than all of
/// theirs and than every id given out before.
pub proof fn lemma_add_extends(s: Seq<TaskView>, last: usize, description: Seq<char>, now: Timestamp)
    requires
        ordered(s),
        bounded(s, last),
        next_id(last) <= usize::MAX,
    ensures
        ordered(with_added(s, last, description, now)),
        bounded(with_added(s, last, description, now), (last + 1) as usize),
        with_added(s, last, description, now).len() == s.len() + 1,
        with_added(s, last, description, now).last().id == Some((last + 1) as usize),
        !has_id(s, (last + 1) as usize),
        forall|k: int|
            0 <= k < s.len() ==> #[trigger] with_added(s, last, description, now)[k] == s[k],
        forall|k: int| 0 <= k < s.len() ==> (#[trigger] s[k]).id.unwrap() <= last,
{
    let r = with_added(s, last, description, now);
    assert forall|i: int, j: int| 0 <= i < j < r.len() implies (#[trigger] r[i]).id.unwrap() < (
    #[trigger] r[j]).id.unwrap() by {
        assert(r[i] == s[i]);
        assert(s[i].id.unwrap() <= last);
        if j < s.len() {
            assert(r[j] == s[j]);
        }
    }
    assert forall|i: int| 0 <= i < r.len() implies (#[trigger] r[i]).id.is_some() && r[i].id.unwrap()
        <= last + 1 by {
        if i < s.len() {
            assert(r[i] == s[i]);
            assert(s[i].id.unwrap() <= last);
        }
    }
    assert forall|k: int| 0 <= k < s.len() implies (#[trigger] s[k]).id != Some(
        (last + 1) as usize,
    ) by {
        assert(s[k].id.unwrap() <= last);
    }
}

/// A task that was added is shown at once: the list then has one line for
/// each task, and its last line is the new task's, not marked done.
pub proof fn lemma_added_task_is_listed(
    s: Seq<TaskView>,
    last: usize,
    description: Seq<char>,
    now: Timestamp,
)
    ensures
        list_lines(with_added(s, last, description, now)).len() == s.len() + 1,
        list_lines(with_added(s, last, description, now)).last() == task_line(
            added_task(last, description, now),
        ),
        !added_task(last, description, now).done,
        forall|k: int|
            0 <= k < s.len() ==> #[trigger] list_lines(with_added(s, last, description, now))[k]
                == task_line(s[k]),
{
}

/// Completing an id that no task has changes nothing.
pub proof fn lemma_complete_absent(s: Seq<TaskView>, id: usize, now: Timestamp)
    requires
        !has_id(s, id),
    ensures
        with_completed(s, id, now) == s,
{
    assert(with_completed(s, id, now) =~= s);
}

/// `done` and `remove` with an id that no task has leave the collection as it
/// was, ask nothing of the store, and report that the task was not found.
pub proof fn lemma_miss_is_reported(s: Seq<TaskView>, last: usize, id: usize, now: Timestamp)
    requires
        !has_id(s, id),
    ensures
        state_after(s, last, CommandView::Done(id), now) == s,
        state_after(s, last, CommandView::Remove(id), now) == s,
        last_after(last, CommandView::Done(id)) == last,
        last_after(last, CommandView::Remove(id)) == last,
        change_after(s, last, CommandView::Done(id), now) == ChangeView::Nothing,
        change_after(s, last, CommandView::Remove(id), now) == ChangeView::Nothing,
        lines_after(s, last, CommandView::Done(id)) == seq!["Task not found."@],
        lines_after(s, last, CommandView::Remove(id)) == seq!["Task not found."@],
{
    lemma_complete_absent(s, id, now);
}

/// Completing the id of the task at place `i` marks that task done, sets its
/// time of last update to `now`, and leaves every other task as it was. The
/// time of last update does not go back where `now` is not earlier than it.
pub proof fn lemma_complete_present(s: Seq<TaskView>, id: usize, now: Timestamp, i: int)
    requires
        ordered(s),
        0 <= i < s.len(),
        s[i].id == Some(id),
    ensures
        with_completed(s, id, now).len() == s.len(),
        with_completed(s, id, now)[i] == completed(s[i], now),
        with_completed(s, id, now)[i].done,
        with_completed(s, id, now)[i].updated_at == now,
        s[i].updated_at.at_or_before(now) ==> s[i].updated_at.at_or_before(
            with_completed(s, id, now)[i].updated_at,
        ),
        forall|k: int| 0 <= k < s.len() && k != i ==> #[trigger] with_completed(s, id, now)[k] == s[k],
        ordered(with_completed(s, id, now)),
{
    assert forall|k: int| 0 <= k < s.len() && k != i implies #[trigger] with_completed(
        s,
        id,
        now,
    )[k] == s[k] by {
        if k < i {
            assert(s[k].id.unwrap() < s[i].id.unwrap());
        } else {
            assert(s[i].id.unwrap() < s[k].id.unwrap());
        }
    }
}

/// Removing an id that no task has changes nothing.
pub proof fn lemma_remove_absent(s: Seq<TaskView>, id: usize)
    requires
        !has_id(s, id),
    ensures
        without(s, id) == s,
{
}

/// Removing the id of the task at place `i` takes out exactly that task: the
/// tasks before it stay in place, those after it move up by one, none of them
/// changes, and the id is no longer in use.
pub proof fn lemma_remove_present(s: Seq<TaskView>, id: usize, i: int)
    requires
        ordered(s),
        0 <= i < s.len(),
        s[i].id == Some(id),
    ensures
        without(s, id).len() == s.len() - 1,
        forall|k: int| 0 <= k < i ==> #[trigger] without(s, id)[k] == s[k],
        forall|k: int| i <= k < s.len() - 1 ==> #[trigger] without(s, id)[k] == s[k + 1],
        !has_id(without(s, id), id),
        ordered(without(s, id)),
{
    lemma_position_is_unique(s, id, i);
    let r = without(s, id);
    assert(r == s.remove(i));
    assert forall|k: int| 0 <= k < r.len() implies (#[trigger] r[k]).id != Some(id) by {
        if k < i {
            assert(r[k] == s[k]);
            assert(s[k].id.unwrap() < s[i].id.unwrap());
        } else {
            assert(r[k] == s[k + 1]);
            assert(s[i].id.unwrap() < s[k + 1].id.unwrap());
        }
    }
    assert forall|a: int, b: int| 0 <= a < b < r.len() implies (#[trigger] r[a]).id.unwrap() < (
    #[trigger] r[b]).id.unwrap() by {
        let a2 = if a < i { a } else { a + 1 };
        let b2 = if b < i { b } else { b + 1 };
        assert(r[a] == s[a2]);
        assert(r[b] == s[b2]);
        assert(s[a2].id.unwrap() < s[b2].id.unwrap());
    }
    assert forall|k: int| 0 <= k < r.len() implies (#[trigger] r[k]).id.is_some() by {
        let k2 = if k < i { k } else { k + 1 };
        assert(r[k] == s[k2]);
    }
}

/// A record that gives no task: one that could not be read, or a row with a
/// timestamp that is no timestamp.
pub open spec fn malformed(record: Option<RowView>) -> bool {
    match record {
        Some(row) => task_of_row(row).is_none(),
        None => true,
    }
}

/// Records that all give a task, with ascending ids, are all loaded: each
/// gives the task that its row stands for, in the same place.
pub proof fn lemma_readable_records_are_loaded(records: Seq<Option<RowView>>)
    requires
        forall|i: int| 0 <= i < records.len() ==> !malformed(#[trigger] records[i]),
        forall|i: int, j: int|
            0 <= i < j < records.len() ==> (#[trigger] records[i]).unwrap().id < (
            #[trigger] records[j]).unwrap().id,
    ensures
        loaded(records).len() == records.len(),
        forall|i: int|
            0 <= i < records.len() ==> Some(#[trigger] loaded(records)[i]) == task_of_row(
                records[i].unwrap(),
            ),
    decreases records.len(),
{
    if records.len() > 0 {
        let front = records.drop_last();
        assert forall|i: int| 0 <= i < front.len() implies !malformed(#[trigger] front[i]) by {
            assert(front[i] == records[i]);
        }
        assert forall|i: int, j: int| 0 <= i < j < front.len() implies (
        #[trigger] front[i]).unwrap().id < (#[trigger] front[j]).unwrap().id by {
            assert(front[i] == records[i]);
            assert(front[j] == records[j]);
        }
        lemma_readable_records_are_loaded(front);
        let prev = loaded(front);
        assert(!malformed(records[records.len() - 1]));
        let row = records.last().unwrap();
        if prev.len() > 0 {
            let m = front.len() - 1;
            assert(Some(prev[m]) == task_of_row(front[m].unwrap()));
            assert(front[m] == records[m]);
            assert(records[m].unwrap().id < records[records.len() - 1].unwrap().id);
        }
        assert(accepts(prev, row));
        assert forall|i: int| 0 <= i < records.len() implies Some(#[trigger] loaded(records)[i])
            == task_of_row(records[i].unwrap()) by {
            if i < front.len() {
                assert(loaded(records)[i] == prev[i]);
                assert(front[i] == records[i]);
            }
        }
    }
}

/// A malformed record, put anywhere among the records, changes nothing of
/// what is loaded: the load passes over it and goes on.
pub proof fn lemma_malformed_record_is_skipped(
    records: Seq<Option<RowView>>,
    k: int,
    bad: Option<RowView>,
)
    requires
        0 <= k <= records.len(),
        malformed(bad),
    ensures
        loaded(records.insert(k, bad)) == loaded(records),
    decreases records.len(),
{
    let longer = records.insert(k, bad);
    if k == records.len() {
        assert(longer.drop_last() =~= records);
    } else {
        let front = records.drop_last();
        lemma_malformed_record_is_skipped(front, k, bad);
        assert(longer.drop_last() =~= front.insert(k, bad));
        assert(longer.last() == records.last());
    }
}

/// One malformed record among records that all give a task, with ascending
/// ids: every one of the others is loaded, in its order, and one record is
/// passed over.
pub proof fn lemma_one_malformed_among_readable(
    records: Seq<Option<RowView>>,
    k: int,
    bad: Option<RowView>,
)
    requires
        0 <= k <= records.len(),
        malformed(bad),
        forall|i: int| 0 <= i < records.len() ==> !malformed(#[trigger] records[i]),
        forall|i: int, j: int|
            0 <= i < j < records.len() ==> (#[trigger] records[i]).unwrap().id < (
            #[trigger] records[j]).unwrap().id,
    ensures
        loaded(records.insert(k, bad)).len() == records.len(),
        records.insert(k, bad).len() - loaded(records.insert(k, bad)).len() == 1,
        forall|i: int|
            0 <= i < records.len() ==> Some(#[trigger] loaded(records.insert(k, bad))[i])
                == task_of_row(records[i].unwrap()),
{
    lemma_malformed_record_is_skipped(records, k, bad);
    lemma_readable_records_are_loaded(records);
}

/// The records that `saved_rows` gives, each as one that could be read.
pub open spec fn readable(rows: Seq<RowView>) -> Seq<Option<RowView>> {
    Seq::new(rows.len(), |i: int| Some(rows[i]))
}

/// Every timestamp of the collection comes back exactly from its text.
pub open spec fn timestamps_keep(s: Seq<TaskView>) -> bool {
    forall|i: int|
        0 <= i < s.len() ==> (#[trigger] s[i]).created_at.keeps_through_text()
            && s[i].updated_at.keeps_through_text()
}

/// Saving an ordered collection and loading the rows again gives the same
/// collection, timestamps included, where every timestamp comes back exactly
/// from its RFC 3339 text. `Timestamp::survives_text` tests that for an
/// instant; a row whose timestamp does not come back as a timestamp at all is
/// passed over by the load and counted.
pub proof fn lemma_save_then_load(s: Seq<TaskView>)
    requires
        ordered(s),
        timestamps_keep(s),
    ensures
        loaded(readable(saved_rows(s))) == s,
{
    let records = readable(saved_rows(s));
    assert forall|i: int| 0 <= i < records.len() implies task_of_row(
        (#[trigger] records[i]).unwrap(),
    ) == Some(s[i]) by {
        assert(s[i].id.is_some());
        assert(s[i].created_at.keeps_through_text());
    }
    assert forall|i: int, j: int| 0 <= i < j < records.len() implies (
    #[trigger] records[i]).unwrap().id < (#[trigger] records[j]).unwrap().id by {
        assert(s[i].id.unwrap() < s[j].id.unwrap());
    }
    lemma_readable_records_are_loaded(records);
    assert(loaded(records) =~= s);
}

} // verus!
