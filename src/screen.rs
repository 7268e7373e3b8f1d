//! Screen operations that the editor asks the terminal to perform, and a
//! model of their effect on the row that holds the terminal cursor.

use vstd::prelude::*;

verus! {

/// One primitive request to the terminal.
#[derive(Debug, PartialEq, Eq)]
pub enum ScreenOp {
    /// Put the cursor at this absolute column of its row.
    MoveToColumn(usize),
    /// Move the cursor one column to the left (it stays at column 0).
    MoveLeft,
    /// Move the cursor one column to the right.
    MoveRight,
    /// Erase the row from the cursor to its end.
    ClearToEnd,
    /// Write these characters at the cursor, which ends after them.
    Write(Vec<char>),
    /// Feed one line: the cursor moves to a fresh, empty row below, in the
    /// same column (raw mode does no carriage return).
    NewLine,
    /// Push buffered output to the terminal.
    Flush,
}

/// What the row under the terminal cursor shows, and the cursor's column.
pub struct TermRow {
    pub shown: Seq<char>,
    pub col: int,
}

/// `row` widened with blanks so that it reaches column `col`.
pub open spec fn padded(row: Seq<char>, col: int) -> Seq<char> {
    if col <= row.len() {
        row
    } else {
        row.add(Seq::new((col - row.len()) as nat, |i: int| ' '))
    }
}

/// `row` after `s` is written over it from column `col`.
pub open spec fn written(row: Seq<char>, col: int, s: Seq<char>) -> Seq<char> {
    let p = padded(row, col);
    let end = col + s.len();
    let rest = if end < p.len() { p.subrange(end, p.len() as int) } else { Seq::empty() };
    p.subrange(0, col).add(s).add(rest)
}

/// The effect of one operation.
pub open spec fn apply_op(t: TermRow, op: ScreenOp) -> TermRow {
    match op {
        ScreenOp::MoveToColumn(c) => TermRow { shown: t.shown, col: c as int },
        ScreenOp::MoveLeft => TermRow { shown: t.shown, col: if t.col > 0 { t.col - 1 } else { 0 } },
        ScreenOp::MoveRight => TermRow { shown: t.shown, col: t.col + 1 },
        ScreenOp::ClearToEnd => TermRow {
            shown: if 0 <= t.col < t.shown.len() { t.shown.subrange(0, t.col) } else { t.shown },
            col: t.col,
        },
        ScreenOp::Write(s) => TermRow { shown: written(t.shown, t.col, s@), col: t.col + s@.len() },
        ScreenOp::NewLine => TermRow { shown: Seq::empty(), col: t.col },
        ScreenOp::Flush => t,
    }
}

/// The effect of a sequence of operations, performed in order.
pub open spec fn run(ops: Seq<ScreenOp>, t: TermRow) -> TermRow
    decreases ops.len(),
{
    if ops.len() == 0 {
        t
    } else {
        apply_op(run(ops.drop_last(), t), ops.last())
    }
}

/// The terminal shows `prompt` then `text` on the cursor's row, with the
/// cursor `cursor` characters after the prompt.
pub open spec fn shows(t: TermRow, prompt: Seq<char>, text: Seq<char>, cursor: int) -> bool {
    &&& t.shown == prompt.add(text)
    &&& t.col == prompt.len() + cursor
}

pub proof fn lemma_run_push(ops: Seq<ScreenOp>, op: ScreenOp, t: TermRow)
    ensures
        run(ops.push(op), t) == apply_op(run(ops, t), op),
{
    assert(ops.push(op).drop_last() =~= ops);
}

/// Performing `a` then `b` is performing `a + b`.
pub proof fn lemma_run_add(a: Seq<ScreenOp>, b: Seq<ScreenOp>, t: TermRow)
    ensures
        run(a.add(b), t) == run(b, run(a, t)),
    decreases b.len(),
{
    if b.len() == 0 {
        assert(a.add(b) =~= a);
    } else {
        lemma_run_add(a, b.drop_last(), t);
        assert(a.add(b).drop_last() =~= a.add(b.drop_last()));
        assert(a.add(b).last() == b.last());
    }
}

/// Writing at the end of a row appends to it.
pub proof fn lemma_write_at_end(row: Seq<char>, s: Seq<char>)
    ensures
        written(row, row.len() as int, s) == row.add(s),
{
    assert(padded(row, row.len() as int) == row);
    assert(row.subrange(0, row.len() as int) =~= row);
}

} // verus!
