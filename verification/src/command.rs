//! The command line: which command the arguments name, and what carrying it
//! out does to the collection, shows to the user and asks of the store.

use vstd::prelude::*;
use vstd::string::*;
use crate::manager::{
    added_task, has_id, next_id, with_added, with_completed, without, TaskManager,
};
use crate::record::{row_of, Row, RowView};
use crate::task::TaskView;
use crate::text::{decimal, decimal_text, join_from, joined, list_lines, texts_of};
use crate::timestamp::{rfc3339_text, Timestamp};

verus! {

/// What the arguments of one invocation ask for.
#[derive(Clone, Debug, PartialEq, Eq)]
pub enum Command {
    /// Add a task with this description.
    Add(String),
    /// Show all tasks.
    List,
    /// Mark the task with this id done.
    Done(usize),
    /// Remove the task with this id.
    Remove(usize),
    /// Show the summary of commands.
    Help,
    /// `add` without a description.
    AddUsage,
    /// `done` without an id.
    DoneUsage,
    /// `remove` without an id.
    RemoveUsage,
    /// `done` or `remove` with an argument that is not an id.
    InvalidId,
    /// A first argument that names no command.
    Unknown,
}

/// A command, with its description as a sequence of characters.
pub enum CommandView {
    Add(Seq<char>),
    List,
    Done(usize),
    Remove(usize),
    Help,
    AddUsage,
    DoneUsage,
    RemoveUsage,
    InvalidId,
    Unknown,
}

impl View for Command {
    type V = CommandView;

    open spec fn view(&self) -> CommandView {
        match self {
            Command::Add(d) => CommandView::Add(d@),
            Command::List => CommandView::List,
            Command::Done(id) => CommandView::Done(*id),
            Command::Remove(id) => CommandView::Remove(*id),
            Command::Help => CommandView::Help,
            Command::AddUsage => CommandView::AddUsage,
            Command::DoneUsage => CommandView::DoneUsage,
            Command::RemoveUsage => CommandView::RemoveUsage,
            Command::InvalidId => CommandView::InvalidId,
            Command::Unknown => CommandView::Unknown,
        }
    }
}

/// Whether a character is one of the ten decimal digits.
pub open spec fn is_digit(c: char) -> bool {
    '0' as nat <= c as nat <= '9' as nat
}

/// The number that a run of decimal digits denotes.
pub open spec fn number_of(digits: Seq<char>) -> nat
    decreases digits.len(),
{
    if digits.len() == 0 {
        0
    } else {
        number_of(digits.drop_last()) * 10 + (digits.last() as nat - '0' as nat) as nat
    }
}

/// Whether every character of a text is a decimal digit.
pub open spec fn all_digits(text: Seq<char>) -> bool {
    forall|i: int| 0 <= i < text.len() ==> #[trigger] is_digit(text[i])
}

/// A text without the `+` that it may begin with.
pub open spec fn unsigned_part(text: Seq<char>) -> Seq<char> {
    if text.len() > 0 && text[0] == '+' {
        text.subrange(1, text.len() as int)
    } else {
        text
    }
}

/// The id that a text denotes: an optional `+`, then one or more decimal
/// digits and nothing else, with a value that fits the machine's word.
/// `None` for any other text.
pub open spec fn id_of_text(text: Seq<char>) -> Option<usize> {
    let digits = unsigned_part(text);
    if digits.len() > 0 && all_digits(digits) && number_of(digits) <= usize::MAX {
        Some(number_of(digits) as usize)
    } else {
        None
    }
}

/// The digits before a place are digits wherever all are, and the number
/// they denote is not above the number that all denote.
pub proof fn lemma_number_of_prefix(digits: Seq<char>, k: int)
    requires
        all_digits(digits),
        0 <= k <= digits.len(),
    ensures
        all_digits(digits.subrange(0, k)),
        number_of(digits.subrange(0, k)) <= number_of(digits),
    decreases digits.len(),
{
    let front = digits.subrange(0, k);
    assert forall|i: int| 0 <= i < front.len() implies #[trigger] is_digit(front[i]) by {
        assert(is_digit(digits[i]));
    }
    if k == digits.len() {
        assert(front =~= digits);
    } else {
        let shorter = digits.drop_last();
        assert forall|i: int| 0 <= i < shorter.len() implies #[trigger] is_digit(shorter[i]) by {
            assert(is_digit(digits[i]));
        }
        lemma_number_of_prefix(shorter, k);
        assert(shorter.subrange(0, k) =~= front);
        assert(is_digit(digits.last()));
    }
}

/// The value of a decimal digit, or `None` for any other character.
fn digit_of(c: char) -> (r: Option<usize>)
    ensures
        r.is_some() == is_digit(c),
        r matches Some(d) ==> d == c as nat - '0' as nat && d < 10,
{
    let u = c as u32;
    if 48 <= u && u <= 57 {
        Some((u - 48) as usize)
    } else {
        None
    }
}

/// Reads an id: an optional `+`, then decimal digits and nothing else. `None`
/// for any other text, and for a number beyond the machine's word.
pub fn parse_id(text: &str) -> (r: Option<usize>)
    ensures
        r == id_of_text(text@),
{
    let n = text.unicode_len();
    let start: usize = if n > 0 && text.get_char(0) == '+' {
        1
    } else {
        0
    };
    let ghost digits = unsigned_part(text@);
    assert(digits =~= text@.subrange(start as int, n as int));
    if start == n {
        return None;
    }
    let mut value: usize = 0;
    let mut i: usize = start;
    proof {
        assert(digits.subrange(0, 0) =~= Seq::<char>::empty());
    }
    while i < n
        invariant
            start <= i <= n,
            n == text@.len(),
            digits == unsigned_part(text@),
            digits == text@.subrange(start as int, n as int),
            all_digits(digits.subrange(0, i - start)),
            value == number_of(digits.subrange(0, i - start)),
        decreases n - i,
    {
        let ghost read = digits.subrange(0, i - start);
        let ghost longer = digits.subrange(0, i + 1 - start);
        proof {
            assert(longer.drop_last() =~= read);
            assert(longer.last() == digits[i - start]);
            assert(digits[i - start] == text@[i as int]);
        }
        match digit_of(text.get_char(i)) {
            None => {
                proof {
                    if all_digits(digits) {
                        assert(is_digit(digits[i - start]));
                    }
                }
                return None;
            },
            Some(d) => {
                proof {
                    assert forall|k: int| 0 <= k < longer.len() implies #[trigger] is_digit(
                        longer[k],
                    ) by {
                        if k < read.len() {
                            assert(is_digit(read[k]));
                        }
                    }
                }
                if value > (usize::MAX - d) / 10 {
                    proof {
                        assert(number_of(longer) > usize::MAX);
                        if all_digits(digits) {
                            lemma_number_of_prefix(digits, i + 1 - start);
                        }
                    }
                    return None;
                }
                value = value * 10 + d;
            },
        }
        i += 1;
    }
    proof {
        assert(digits.subrange(0, n - start) =~= digits);
    }
    Some(value)
}

/// The command that `done` or `remove` gives for its argument.
pub open spec fn with_id(text: Seq<char>, remove: bool) -> CommandView {
    match id_of_text(text) {
        Some(id) => if remove {
            CommandView::Remove(id)
        } else {
            CommandView::Done(id)
        },
        None => CommandView::InvalidId,
    }
}

/// The command that a process's arguments name. The first argument is the
/// program's own name; the second selects the command; without one the
/// command is `list`. The description of `add` is all that follows, joined
/// by spaces.
pub open spec fn command_of(args: Seq<Seq<char>>) -> CommandView {
    if args.len() <= 1 {
        CommandView::List
    } else if args[1] == "add"@ {
        if args.len() > 2 {
            CommandView::Add(joined(args.subrange(2, args.len() as int)))
        } else {
            CommandView::AddUsage
        }
    } else if args[1] == "list"@ {
        CommandView::List
    } else if args[1] == "done"@ {
        if args.len() > 2 {
            with_id(args[2], false)
        } else {
            CommandView::DoneUsage
        }
    } else if args[1] == "remove"@ {
        if args.len() > 2 {
            with_id(args[2], true)
        } else {
            CommandView::RemoveUsage
        }
    } else if args[1] == "help"@ {
        CommandView::Help
    } else {
        CommandView::Unknown
    }
}

fn is_word(s: &String, word: &str) -> (r: bool)
    ensures
        r == (s@ == word@),
{
    let w = String::from_str(word);
    s.eq(&w)
}

/// Reads the command from a process's arguments.
pub fn parse_command(args: &Vec<String>) -> (r: Command)
    ensures
        r@ == command_of(texts_of(args@)),
{
    let n = args.len();
    if n <= 1 {
        return Command::List;
    }
    let ghost all = texts_of(args@);
    assert(all[1] == args@[1]@);
    let word = &args[1];
    if is_word(word, "add") {
        if n > 2 {
            Command::Add(join_from(args, 2))
        } else {
            Command::AddUsage
        }
    } else if is_word(word, "list") {
        Command::List
    } else if is_word(word, "done") {
        if n > 2 {
            assert(all[2] == args@[2]@);
            match parse_id(args[2].as_str()) {
                Some(id) => Command::Done(id),
                None => Command::InvalidId,
            }
        } else {
            Command::DoneUsage
        }
    } else if is_word(word, "remove") {
        if n > 2 {
            assert(all[2] == args@[2]@);
            match parse_id(args[2].as_str()) {
                Some(id) => Command::Remove(id),
                None => Command::InvalidId,
            }
        } else {
            Command::RemoveUsage
        }
    } else if is_word(word, "help") {
        Command::Help
    } else {
        Command::Unknown
    }
}

/// What the store has to do after a command.
#[derive(Clone, Debug, PartialEq, Eq)]
pub enum Change {
    /// Nothing.
    Nothing,
    /// Insert this row.
    Insert(Row),
    /// Mark the row with this id done, with this text as its time of last
    /// update.
    MarkDone(usize, String),
    /// Delete the row with this id.
    Delete(usize),
}

/// A change, with its texts as sequences of characters.
pub enum ChangeView {
    Nothing,
    Insert(RowView),
    MarkDone(usize, Seq<char>),
    Delete(usize),
}

impl View for Change {
    type V = ChangeView;

    open spec fn view(&self) -> ChangeView {
        match self {
            Change::Nothing => ChangeView::Nothing,
            Change::Insert(row) => ChangeView::Insert(row@),
            Change::MarkDone(id, at) => ChangeView::MarkDone(*id, at@),
            Change::Delete(id) => ChangeView::Delete(*id),
        }
    }
}

/// What a command gives back: the lines to show and the change to store.
pub struct Outcome {
    pub lines: Vec<String>,
    pub change: Change,
}

/// The collection after a command was carried out at the instant `now`, where
/// `last` is the greatest id given out before. Only `add`, and `done` and
/// `remove` with an id in use, change it.
pub open spec fn state_after(
    s: Seq<TaskView>,
    last: usize,
    c: CommandView,
    now: Timestamp,
) -> Seq<TaskView> {
    match c {
        CommandView::Add(d) => with_added(s, last, d, now),
        CommandView::Done(id) => with_completed(s, id, now),
        CommandView::Remove(id) => without(s, id),
        _ => s,
    }
}

/// The greatest id given out after a command: one more for `add`, and what it
/// was for every other command, `remove` among them.
pub open spec fn last_after(last: usize, c: CommandView) -> usize {
    match c {
        CommandView::Add(d) => next_id(last) as usize,
        _ => last,
    }
}

/// The change that the store has to make after a command.
pub open spec fn change_after(
    s: Seq<TaskView>,
    last: usize,
    c: CommandView,
    now: Timestamp,
) -> ChangeView {
    match c {
        CommandView::Add(d) => ChangeView::Insert(row_of(added_task(last, d, now))),
        CommandView::Done(id) => if has_id(s, id) {
            ChangeView::MarkDone(id, rfc3339_text(now.seconds(), now.subsec_nanos()))
        } else {
            ChangeView::Nothing
        },
        CommandView::Remove(id) => if has_id(s, id) {
            ChangeView::Delete(id)
        } else {
            ChangeView::Nothing
        },
        _ => ChangeView::Nothing,
    }
}

/// The summary of commands.
pub open spec fn help_lines() -> Seq<Seq<char>> {
    seq![
        "Usage: todo <command> [options]"@,
        "Commands:"@,
        "  add <task description> - Add a new task"@,
        "  list - List all tasks"@,
        "  done <task ID> - Mark a task as done"@,
        "  remove <task ID> - Remove a task"@,
        "  help - Show this help message"@,
    ]
}

/// The lines that a command shows when carried out on the collection `s`,
/// where `last` is the greatest id given out before.
pub open spec fn lines_after(s: Seq<TaskView>, last: usize, c: CommandView) -> Seq<Seq<char>> {
    match c {
        CommandView::Add(d) => seq!["Added task "@ + decimal(next_id(last) as nat) + "."@],
        CommandView::List => list_lines(s),
        CommandView::Done(id) => if has_id(s, id) {
            seq!["Completed task "@ + decimal(id as nat) + "."@]
        } else {
            seq!["Task not found."@]
        },
        CommandView::Remove(id) => if has_id(s, id) {
            seq!["Removed task "@ + decimal(id as nat) + "."@]
        } else {
            seq!["Task not found."@]
        },
        CommandView::Help => help_lines(),
        CommandView::AddUsage => seq!["Usage: add <task description>"@],
        CommandView::DoneUsage => seq!["Usage: done <task ID>"@],
        CommandView::RemoveUsage => seq!["Usage: remove <task ID>"@],
        CommandView::InvalidId => seq!["Invalid task ID."@],
        CommandView::Unknown => seq!["Unknown command. Use 'help' for usage information."@],
    }
}

fn one_line(text: &str) -> (r: Vec<String>)
    ensures
        texts_of(r@) == seq![text@],
{
    let mut out: Vec<String> = Vec::new();
    out.push(String::from_str(text));
    assert(texts_of(out@) =~= seq![text@]);
    out
}

fn numbered_line(before: &str, id: usize, after: &str) -> (r: Vec<String>)
    ensures
        texts_of(r@) == seq![before@ + decimal(id as nat) + after@],
{
    let mut line = String::from_str(before);
    line.append(decimal_text(id).as_str());
    line.append(after);
    let mut out: Vec<String> = Vec::new();
    out.push(line);
    assert(texts_of(out@) =~= seq![before@ + decimal(id as nat) + after@]);
    out
}

fn help_text() -> (r: Vec<String>)
    ensures
        texts_of(r@) == help_lines(),
{
    let mut out: Vec<String> = Vec::new();
    out.push(String::from_str("Usage: todo <command> [options]"));
    out.push(String::from_str("Commands:"));
    out.push(String::from_str("  add <task description> - Add a new task"));
    out.push(String::from_str("  list - List all tasks"));
    out.push(String::from_str("  done <task ID> - Mark a task as done"));
    out.push(String::from_str("  remove <task ID> - Remove a task"));
    out.push(String::from_str("  help - Show this help message"));
    assert(texts_of(out@) =~= help_lines());
    out
}

/// Carries a command out on the collection at the instant `now`: changes the
/// collection, and returns the lines to show and the change to store.
pub fn execute_at(manager: &mut TaskManager, command: Command, now: Timestamp) -> (r: Outcome)
    requires
        old(manager).well_formed(),
        command is Add ==> next_id(old(manager).last_assigned()) <= usize::MAX,
    ensures
        final(manager).well_formed(),
        final(manager)@ == state_after(old(manager)@, old(manager).last_assigned(), command@, now),
        final(manager).last_assigned() == last_after(old(manager).last_assigned(), command@),
        texts_of(r.lines@) == lines_after(old(manager)@, old(manager).last_assigned(), command@),
        r.change@ == change_after(old(manager)@, old(manager).last_assigned(), command@, now),
{
    match command {
        Command::Add(description) => {
            let stored = description.clone();
            let id = manager.add_task_at(description, now);
            let row = Row {
                id,
                description: stored,
                done: false,
                created_at: now.to_rfc3339(),
                updated_at: now.to_rfc3339(),
            };
            Outcome { lines: numbered_line("Added task ", id, "."), change: Change::Insert(row) }
        },
        Command::List => Outcome { lines: manager.list_tasks(), change: Change::Nothing },
        Command::Done(id) => {
            if manager.complete_task_at(id, now) {
                Outcome {
                    lines: numbered_line("Completed task ", id, "."),
                    change: Change::MarkDone(id, now.to_rfc3339()),
                }
            } else {
                Outcome { lines: one_line("Task not found."), change: Change::Nothing }
            }
        },
        Command::Remove(id) => {
            if manager.remove_task(id) {
                Outcome {
                    lines: numbered_line("Removed task ", id, "."),
                    change: Change::Delete(id),
                }
            } else {
                Outcome { lines: one_line("Task not found."), change: Change::Nothing }
            }
        },
        Command::Help => Outcome { lines: help_text(), change: Change::Nothing },
        Command::AddUsage => Outcome {
            lines: one_line("Usage: add <task description>"),
            change: Change::Nothing,
        },
        Command::DoneUsage => Outcome {
            lines: one_line("Usage: done <task ID>"),
            change: Change::Nothing,
        },
        Command::RemoveUsage => Outcome {
            lines: one_line("Usage: remove <task ID>"),
            change: Change::Nothing,
        },
        Command::InvalidId => Outcome {
            lines: one_line("Invalid task ID."),
            change: Change::Nothing,
        },
        Command::Unknown => Outcome {
            lines: one_line("Unknown command. Use 'help' for usage information."),
            change: Change::Nothing,
        },
    }
}

/// Carries a command out on the collection at the current time of the system
/// clock. The lines do not depend on the instant; the collection and the
/// change are what `execute_at` gives for some instant.
pub fn execute(manager: &mut TaskManager, command: Command) -> (r: Outcome)
    requires
        old(manager).well_formed(),
        command is Add ==> next_id(old(manager).last_assigned()) <= usize::MAX,
    ensures
        final(manager).well_formed(),
        final(manager).last_assigned() == last_after(old(manager).last_assigned(), command@),
        texts_of(r.lines@) == lines_after(old(manager)@, old(manager).last_assigned(), command@),
        exists|now: Timestamp|
            final(manager)@ == #[trigger] state_after(
                old(manager)@,
                old(manager).last_assigned(),
                command@,
                now,
            ) && r.change@ == change_after(
                old(manager)@,
                old(manager).last_assigned(),
                command@,
                now,
            ),
{
    execute_at(manager, command, Timestamp::now())
}

} // verus!
