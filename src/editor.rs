//! The line editor: the uncommitted line, the cursor within it, and the edits
//! on them. Each edit returns the screen operations that bring the terminal
//! row back in step with the buffer.

use vstd::prelude::*;
use crate::prompt::{get_prompt_width, prompt_of, prompt_width_of, lemma_prompt_width_bound};
use crate::screen::{ScreenOp, TermRow, run, shows, apply_op, lemma_write_at_end};

verus! {

/// Longest line the editor accepts, so that every screen column fits a `usize`.
pub const MAX_LINE_LEN: usize = usize::MAX - 32;

/// Line and cursor after `c` is inserted at the cursor.
pub open spec fn inserted(text: Seq<char>, cursor: int, c: char) -> (Seq<char>, int) {
    (text.insert(cursor, c), cursor + 1)
}

/// Line and cursor after a backspace.
pub open spec fn backspaced(text: Seq<char>, cursor: int) -> (Seq<char>, int) {
    if cursor > 0 {
        (text.remove(cursor - 1), cursor - 1)
    } else {
        (text, cursor)
    }
}

/// Line and cursor after a forward delete.
pub open spec fn forward_deleted(text: Seq<char>, cursor: int) -> (Seq<char>, int) {
    if cursor < text.len() {
        (text.remove(cursor), cursor)
    } else {
        (text, cursor)
    }
}

/// Inserting a character and then deleting backwards gives back the line
/// and the cursor as they were.
pub proof fn lemma_insert_then_backspace(text: Seq<char>, cursor: int, c: char)
    requires
        0 <= cursor <= text.len(),
    ensures
        backspaced(inserted(text, cursor, c).0, inserted(text, cursor, c).1) == (text, cursor),
{
    assert(text.insert(cursor, c).remove(cursor) =~= text);
}

/// The terminal row shows the prompt of line `n` and then `text`, with the
/// cursor at `cursor` characters into `text`.
pub open spec fn on_screen(t: TermRow, n: nat, text: Seq<char>, cursor: int) -> bool {
    shows(t, prompt_of(n), text, cursor)
}

/// `ops` is the minimal redraw of line `n`: go to `from`, clear to the end of
/// the row, write `text` from `from` on, put the cursor at `fin`, flush.
pub open spec fn redraws(ops: Seq<ScreenOp>, n: nat, text: Seq<char>, from: int, fin: int) -> bool {
    let pw = prompt_width_of(n) as int;
    &&& ops.len() == 5
    &&& ops[0] == ScreenOp::MoveToColumn((pw + from) as usize)
    &&& ops[1] == ScreenOp::ClearToEnd
    &&& ops[2] is Write
    &&& ops[2]->Write_0@ == text.subrange(from, text.len() as int)
    &&& ops[3] == ScreenOp::MoveToColumn((pw + fin) as usize)
    &&& ops[4] == ScreenOp::Flush
}

/// A redraw from `from` shows the new text, whatever the row held from
/// `from` on.
pub proof fn lemma_redraw_syncs(
    ops: Seq<ScreenOp>,
    n: nat,
    before: Seq<char>,
    text: Seq<char>,
    from: int,
    fin: int,
    t: TermRow,
)
    requires
        redraws(ops, n, text, from, fin),
        t.shown == prompt_of(n).add(before),
        0 <= from <= before.len(),
        from <= text.len(),
        0 <= fin,
        before.subrange(0, from) == text.subrange(0, from),
        prompt_width_of(n) + text.len() <= usize::MAX,
        prompt_width_of(n) + fin <= usize::MAX,
    ensures
        on_screen(run(ops, t), n, text, fin),
{
    let p = prompt_of(n);
    let pw = p.len() as int;
    reveal_with_fuel(run, 6);
    let t0 = apply_op(t, ops[0]);
    assert(t0.col == pw + from);
    let t1 = apply_op(t0, ops[1]);
    assert(t1.shown =~= p.add(text.subrange(0, from))) by {
        assert(p.add(before).subrange(0, pw + from) =~= p.add(before.subrange(0, from)));
    }
    assert(t1.col == t1.shown.len());
    let t2 = apply_op(t1, ops[2]);
    lemma_write_at_end(t1.shown, text.subrange(from, text.len() as int));
    assert(t2.shown =~= p.add(text));
    assert(ops.subrange(0, 5) =~= ops);
    assert(run(ops, t) == apply_op(apply_op(t2, ops[3]), ops[4])) by {
        assert(ops.drop_last().drop_last().drop_last() =~= ops.subrange(0, 2));
        assert(ops.subrange(0, 2).drop_last().drop_last() =~= Seq::<ScreenOp>::empty());
    }
}

/// A copy of `v` from `from` to its end.
fn tail_of(v: &Vec<char>, from: usize) -> (r: Vec<char>)
    requires
        from <= v@.len(),
    ensures
        r@ == v@.subrange(from as int, v@.len() as int),
{
    let mut r: Vec<char> = Vec::new();
    let mut i: usize = from;
    while i < v.len()
        invariant
            from <= i <= v@.len(),
            r@ == v@.subrange(from as int, i as int),
        decreases v@.len() - i,
    {
        r.push(v[i]);
        i = i + 1;
        assert(r@ =~= v@.subrange(from as int, i as int));
    }
    r
}

/// Redraws line `line_number` from `redraw_from` to its end and leaves the
/// terminal cursor at `final_cursor_pos`.
pub fn redraw_line_after_insert(
    current_line: &Vec<char>,
    redraw_from: usize,
    final_cursor_pos: usize,
    line_number: usize,
) -> (ops: Vec<ScreenOp>)
    requires
        redraw_from <= current_line@.len(),
        final_cursor_pos <= current_line@.len(),
        current_line@.len() <= MAX_LINE_LEN,
    ensures
        redraws(ops@, line_number as nat, current_line@, redraw_from as int, final_cursor_pos as int),
{
    let pw = get_prompt_width(line_number);
    let mut ops: Vec<ScreenOp> = Vec::new();
    ops.push(ScreenOp::MoveToColumn(pw + redraw_from));
    ops.push(ScreenOp::ClearToEnd);
    ops.push(ScreenOp::Write(tail_of(current_line, redraw_from)));
    ops.push(ScreenOp::MoveToColumn(pw + final_cursor_pos));
    ops.push(ScreenOp::Flush);
    ops
}

/// Redraws line `line_number` from `cursor_pos` to its end and leaves the
/// terminal cursor where it started.
pub fn redraw_line_from_cursor(current_line: &Vec<char>, cursor_pos: usize, line_number: usize) -> (ops: Vec<
    ScreenOp,
>)
    requires
        cursor_pos <= current_line@.len(),
        current_line@.len() <= MAX_LINE_LEN,
    ensures
        redraws(ops@, line_number as nat, current_line@, cursor_pos as int, cursor_pos as int),
{
    redraw_line_after_insert(current_line, cursor_pos, cursor_pos, line_number)
}

/// Inserts `c` at the cursor and moves the cursor past it.
pub fn insert_char_at_cursor(
    current_line: &mut Vec<char>,
    cursor_pos: &mut usize,
    c: char,
    line_number: usize,
) -> (ops: Vec<ScreenOp>)
    requires
        *old(cursor_pos) <= old(current_line)@.len(),
        old(current_line)@.len() < MAX_LINE_LEN,
    ensures
        (final(current_line)@, *final(cursor_pos) as int) == inserted(old(current_line)@, *old(cursor_pos) as int, c),
        *final(cursor_pos) <= final(current_line)@.len(),
        redraws(ops@, line_number as nat, final(current_line)@, *old(cursor_pos) as int, *final(cursor_pos) as int),
        forall|t: TermRow|
            on_screen(t, line_number as nat, old(current_line)@, *old(cursor_pos) as int)
                ==> #[trigger] on_screen(run(ops@, t), line_number as nat, final(current_line)@, *final(cursor_pos) as int),
{
    let ghost before = current_line@;
    let insert_pos = *cursor_pos;
    current_line.insert(insert_pos, c);
    *cursor_pos = insert_pos + 1;
    let ops = redraw_line_after_insert(current_line, insert_pos, *cursor_pos, line_number);
    proof {
        lemma_prompt_width_bound(line_number);
        let text = current_line@;
        assert(before.subrange(0, insert_pos as int) =~= text.subrange(0, insert_pos as int));
        assert forall|t: TermRow| on_screen(t, line_number as nat, before, insert_pos as int) implies
            #[trigger] on_screen(run(ops@, t), line_number as nat, text, insert_pos + 1) by {
            lemma_redraw_syncs(ops@, line_number as nat, before, text, insert_pos as int, insert_pos + 1, t);
        }
    }
    ops
}

/// Backspace: removes the character before the cursor, which moves back
/// one; nothing at the start of the line.
pub fn delete_char_at_cursor(current_line: &mut Vec<char>, cursor_pos: &mut usize, line_number: usize) -> (ops:
    Vec<ScreenOp>)
    requires
        *old(cursor_pos) <= old(current_line)@.len(),
        old(current_line)@.len() <= MAX_LINE_LEN,
    ensures
        (final(current_line)@, *final(cursor_pos) as int) == backspaced(old(current_line)@, *old(cursor_pos) as int),
        *final(cursor_pos) <= final(current_line)@.len(),
        *old(cursor_pos) == 0 ==> ops@.len() == 0,
        *old(cursor_pos) > 0 ==> redraws(
            ops@,
            line_number as nat,
            final(current_line)@,
            *final(cursor_pos) as int,
            *final(cursor_pos) as int,
        ),
        forall|t: TermRow|
            on_screen(t, line_number as nat, old(current_line)@, *old(cursor_pos) as int)
                ==> #[trigger] on_screen(run(ops@, t), line_number as nat, final(current_line)@, *final(cursor_pos) as int),
{
    if *cursor_pos > 0 && current_line.len() > 0 {
        let ghost before = current_line@;
        let pos = *cursor_pos - 1;
        *cursor_pos = pos;
        current_line.remove(pos);
        let ops = redraw_line_from_cursor(current_line, pos, line_number);
        proof {
            lemma_prompt_width_bound(line_number);
            let text = current_line@;
            assert(before.subrange(0, pos as int) =~= text.subrange(0, pos as int));
            assert forall|t: TermRow| on_screen(t, line_number as nat, before, pos + 1) implies
                #[trigger] on_screen(run(ops@, t), line_number as nat, text, pos as int) by {
                lemma_redraw_syncs(ops@, line_number as nat, before, text, pos as int, pos as int, t);
            }
        }
        ops
    } else {
        Vec::new()
    }
}

/// Delete: removes the character under the cursor, which stays; nothing at
/// the end of the line.
pub fn delete_char_forward(current_line: &mut Vec<char>, cursor_pos: &mut usize, line_number: usize) -> (ops: Vec<
    ScreenOp,
>)
    requires
        *old(cursor_pos) <= old(current_line)@.len(),
        old(current_line)@.len() <= MAX_LINE_LEN,
    ensures
        (final(current_line)@, *final(cursor_pos) as int) == forward_deleted(old(current_line)@, *old(cursor_pos) as int),
        *final(cursor_pos) <= final(current_line)@.len(),
        *old(cursor_pos) == old(current_line)@.len() ==> ops@.len() == 0,
        *old(cursor_pos) < old(current_line)@.len() ==> redraws(
            ops@,
            line_number as nat,
            final(current_line)@,
            *old(cursor_pos) as int,
            *old(cursor_pos) as int,
        ),
        forall|t: TermRow|
            on_screen(t, line_number as nat, old(current_line)@, *old(cursor_pos) as int)
                ==> #[trigger] on_screen(run(ops@, t), line_number as nat, final(current_line)@, *final(cursor_pos) as int),
{
    if *cursor_pos < current_line.len() {
        let ghost before = current_line@;
        let pos = *cursor_pos;
        current_line.remove(pos);
        let ops = redraw_line_from_cursor(current_line, pos, line_number);
        proof {
            lemma_prompt_width_bound(line_number);
            let text = current_line@;
            assert(before.subrange(0, pos as int) =~= text.subrange(0, pos as int));
            assert forall|t: TermRow| on_screen(t, line_number as nat, before, pos as int) implies
                #[trigger] on_screen(run(ops@, t), line_number as nat, text, pos as int) by {
                lemma_redraw_syncs(ops@, line_number as nat, before, text, pos as int, pos as int, t);
            }
        }
        ops
    } else {
        Vec::new()
    }
}

/// Left arrow: the cursor moves back one, unless at the start.
pub fn move_cursor_left(cursor_pos: &mut usize, line_number: usize) -> (ops: Vec<ScreenOp>)
    ensures
        *final(cursor_pos) <= *old(cursor_pos),
        *old(cursor_pos) == 0 ==> *final(cursor_pos) == 0 && ops@.len() == 0,
        *old(cursor_pos) > 0 ==> {
            &&& *final(cursor_pos) == *old(cursor_pos) - 1
            &&& ops@ == seq![ScreenOp::MoveLeft, ScreenOp::Flush]
        },
        forall|t: TermRow, text: Seq<char>|
            on_screen(t, line_number as nat, text, *old(cursor_pos) as int)
                ==> #[trigger] on_screen(run(ops@, t), line_number as nat, text, *final(cursor_pos) as int),
{
    let mut ops: Vec<ScreenOp> = Vec::new();
    if *cursor_pos > 0 {
        *cursor_pos = *cursor_pos - 1;
        ops.push(ScreenOp::MoveLeft);
        ops.push(ScreenOp::Flush);
        proof {
            reveal_with_fuel(run, 3);
        }
    }
    ops
}

/// Right arrow: the cursor moves on one, unless at the end.
pub fn move_cursor_right(current_line: &Vec<char>, cursor_pos: &mut usize, line_number: usize) -> (ops: Vec<
    ScreenOp,
>)
    requires
        *old(cursor_pos) <= current_line@.len(),
    ensures
        *old(cursor_pos) == current_line@.len() ==> *final(cursor_pos) == *old(cursor_pos) && ops@.len() == 0,
        *final(cursor_pos) <= current_line@.len(),
        *old(cursor_pos) < current_line@.len() ==> {
            &&& *final(cursor_pos) == *old(cursor_pos) + 1
            &&& ops@ == seq![ScreenOp::MoveRight, ScreenOp::Flush]
        },
        forall|t: TermRow|
            on_screen(t, line_number as nat, current_line@, *old(cursor_pos) as int)
                ==> #[trigger] on_screen(run(ops@, t), line_number as nat, current_line@, *final(cursor_pos) as int),
{
    let mut ops: Vec<ScreenOp> = Vec::new();
    if *cursor_pos < current_line.len() {
        *cursor_pos = *cursor_pos + 1;
        ops.push(ScreenOp::MoveRight);
        ops.push(ScreenOp::Flush);
        proof {
            reveal_with_fuel(run, 3);
        }
    }
    ops
}

/// Home: the cursor goes to the start of the line.
pub fn move_cursor_to_start(cursor_pos: &mut usize, line_number: usize) -> (ops: Vec<ScreenOp>)
    ensures
        *final(cursor_pos) == 0,
        ops@ == seq![ScreenOp::MoveToColumn(prompt_width_of(line_number as nat) as usize), ScreenOp::Flush],
        forall|t: TermRow, text: Seq<char>|
            on_screen(t, line_number as nat, text, *old(cursor_pos) as int)
                ==> #[trigger] on_screen(run(ops@, t), line_number as nat, text, 0),
{
    let pw = get_prompt_width(line_number);
    let mut ops: Vec<ScreenOp> = Vec::new();
    ops.push(ScreenOp::MoveToColumn(pw));
    ops.push(ScreenOp::Flush);
    *cursor_pos = 0;
    proof {
        reveal_with_fuel(run, 3);
    }
    ops
}

/// End: the cursor goes to the end of the line.
pub fn move_cursor_to_end(current_line: &Vec<char>, cursor_pos: &mut usize, line_number: usize) -> (ops: Vec<
    ScreenOp,
>)
    requires
        current_line@.len() <= MAX_LINE_LEN,
    ensures
        *final(cursor_pos) == current_line@.len(),
        ops@ == seq![
            ScreenOp::MoveToColumn((prompt_width_of(line_number as nat) + current_line@.len()) as usize),
            ScreenOp::Flush,
        ],
        forall|t: TermRow|
            on_screen(t, line_number as nat, current_line@, *old(cursor_pos) as int)
                ==> #[trigger] on_screen(run(ops@, t), line_number as nat, current_line@, current_line@.len() as int),
{
    let pw = get_prompt_width(line_number);
    let mut ops: Vec<ScreenOp> = Vec::new();
    ops.push(ScreenOp::MoveToColumn(pw + current_line.len()));
    ops.push(ScreenOp::Flush);
    *cursor_pos = current_line.len();
    proof {
        reveal_with_fuel(run, 3);
    }
    ops
}

} // verus!
