//! Text that the operations produce: numbers in decimal, words joined by
//! spaces, and the line that shows a task.

use vstd::prelude::*;
use vstd::string::*;
use crate::task::TaskView;

verus! {

/// The character for a digit below ten.
pub open spec fn digit_char(d: nat) -> char {
    if d == 0 {
        '0'
    } else if d == 1 {
        '1'
    } else if d == 2 {
        '2'
    } else if d == 3 {
        '3'
    } else if d == 4 {
        '4'
    } else if d == 5 {
        '5'
    } else if d == 6 {
        '6'
    } else if d == 7 {
        '7'
    } else if d == 8 {
        '8'
    } else {
        '9'
    }
}

/// A number in decimal, without leading zeros.
pub open spec fn decimal(n: nat) -> Seq<char>
    decreases n,
{
    if n < 10 {
        seq![digit_char(n)]
    } else {
        decimal(n / 10).push(digit_char(n % 10))
    }
}

/// The texts of `parts` with one space between neighbours.
pub open spec fn joined(parts: Seq<Seq<char>>) -> Seq<char>
    decreases parts.len(),
{
    if parts.len() == 0 {
        Seq::empty()
    } else if parts.len() == 1 {
        parts[0]
    } else {
        joined(parts.drop_last()) + seq![' '] + parts.last()
    }
}

/// The contents of a vector of strings.
pub open spec fn texts_of(v: Seq<String>) -> Seq<Seq<char>> {
    v.map_values(|s: String| s@)
}

/// The line that shows a task in a list: a mark in brackets, `x` for a task
/// that is done, then the id (0 for a task without one), the description, and
/// the two timestamps to the second.
pub open spec fn task_line(t: TaskView) -> Seq<char> {
    (if t.done {
        "[x] "@
    } else {
        "[ ] "@
    }) + decimal(
        (match t.id {
            Some(id) => id,
            None => 0,
        }) as nat,
    ) + " - "@ + t.description + " (Created: "@ + crate::timestamp::display_text(
        t.created_at.seconds(),
        t.created_at.subsec_nanos(),
    ) + ", Updated: "@ + crate::timestamp::display_text(
        t.updated_at.seconds(),
        t.updated_at.subsec_nanos(),
    ) + ")"@
}

/// The notice that stands for an empty list.
pub open spec fn empty_notice() -> Seq<char> {
    "No tasks in the to-do list."@
}

/// What a list of `s` shows: one line for each task, in the collection's
/// order, or the notice alone where there is no task.
pub open spec fn list_lines(s: Seq<TaskView>) -> Seq<Seq<char>> {
    if s.len() == 0 {
        seq![empty_notice()]
    } else {
        Seq::new(s.len(), |i: int| task_line(s[i]))
    }
}

fn digit_text(d: usize) -> (r: &'static str)
    requires
        d < 10,
    ensures
        r@ == seq![digit_char(d as nat)],
{
    proof {
        reveal_strlit("0");
        reveal_strlit("1");
        reveal_strlit("2");
        reveal_strlit("3");
        reveal_strlit("4");
        reveal_strlit("5");
        reveal_strlit("6");
        reveal_strlit("7");
        reveal_strlit("8");
        reveal_strlit("9");
    }
    let r = if d == 0 {
        "0"
    } else if d == 1 {
        "1"
    } else if d == 2 {
        "2"
    } else if d == 3 {
        "3"
    } else if d == 4 {
        "4"
    } else if d == 5 {
        "5"
    } else if d == 6 {
        "6"
    } else if d == 7 {
        "7"
    } else if d == 8 {
        "8"
    } else {
        "9"
    };
    assert(r@ =~= seq![digit_char(d as nat)]);
    r
}

/// Writes a number in decimal.
pub fn decimal_text(n: usize) -> (r: String)
    ensures
        r@ == decimal(n as nat),
    decreases n,
{
    if n < 10 {
        String::from_str(digit_text(n))
    } else {
        let mut s = decimal_text(n / 10);
        s.append(digit_text(n % 10));
        assert(s@ =~= decimal(n as nat));
        s
    }
}

/// Joins the strings of `parts` from the place `from` on, with one space
/// between neighbours.
pub fn join_from(parts: &Vec<String>, from: usize) -> (r: String)
    requires
        from <= parts.len(),
    ensures
        r@ == joined(texts_of(parts@).subrange(from as int, parts.len() as int)),
{
    let ghost all = texts_of(parts@);
    let mut out = String::new();
    let mut i: usize = from;
    proof {
        assert(all.subrange(from as int, from as int) =~= Seq::<Seq<char>>::empty());
    }
    while i < parts.len()
        invariant
            from <= i <= parts.len(),
            all == texts_of(parts@),
            out@ == joined(all.subrange(from as int, i as int)),
        decreases parts.len() - i,
    {
        let ghost before = all.subrange(from as int, i as int);
        let ghost after = all.subrange(from as int, i + 1);
        proof {
            assert(after.drop_last() =~= before);
            assert(after.last() == parts@[i as int]@);
            reveal_strlit(" ");
            assert(" "@ =~= seq![' ']);
        }
        if i > from {
            out.append(" ");
        }
        out.append(parts[i].as_str());
        proof {
            if i == from {
                assert(out@ =~= after[0]);
            } else {
                assert(out@ =~= joined(before) + seq![' '] + after.last());
            }
        }
        i += 1;
    }
    out
}

/// Writes the line that shows a task.
pub fn task_line_text(t: &crate::task::Task) -> (r: String)
    ensures
        r@ == task_line(t@),
{
    let mut out = String::from_str(
        if t.done {
            "[x] "
        } else {
            "[ ] "
        },
    );
    let number = decimal_text(
        match t.id {
            Some(id) => id,
            None => 0,
        },
    );
    out.append(number.as_str());
    out.append(" - ");
    out.append(t.description.as_str());
    out.append(" (Created: ");
    out.append(t.created_at.to_display().as_str());
    out.append(", Updated: ");
    out.append(t.updated_at.to_display().as_str());
    out.append(")");
    out
}

} // verus!
