//! The event dispatcher: routes each key or paste event to the line editor
//! or to the committed lines, and decides when the session ends.

use vstd::prelude::*;
use crate::prompt::{prompt_of, prompt_text, lemma_prompt_width_bound};
use crate::screen::{ScreenOp, TermRow, run, lemma_run_add, lemma_run_push, lemma_write_at_end};
use crate::editor::{
    MAX_LINE_LEN, on_screen, inserted, backspaced, forward_deleted, lemma_redraw_syncs,
    insert_char_at_cursor, delete_char_at_cursor, delete_char_forward, move_cursor_left,
    move_cursor_right, move_cursor_to_start, move_cursor_to_end, redraw_line_after_insert,
};
use crate::text::{blank, views, lines_of, trimmed_start, is_blank, split_lines, trim_start, chars_of, lemma_lines_bounded};

verus! {

/// The key of a key event.
#[derive(Debug, Clone, Copy, PartialEq, Eq)]
pub enum KeyCode {
    Char(char),
    Backspace,
    Delete,
    Left,
    Right,
    Home,
    End,
    Enter,
    /// Any key the editor does not handle.
    Other,
}

/// A key press, with whether the control modifier was held.
#[derive(Debug, Clone, Copy, PartialEq, Eq)]
pub struct KeyEvent {
    pub code: KeyCode,
    pub ctrl: bool,
}

/// The key that ends the session at once, whatever the line holds.
pub open spec fn is_interrupt(event: KeyEvent) -> bool {
    event.code == KeyCode::Char('c') && event.ctrl
}

/// What a key event does: whether the session ends, and the committed
/// lines, the line and the cursor afterwards.
pub open spec fn key_outcome(event: KeyEvent, lines: Seq<Seq<char>>, text: Seq<char>, cursor: int) -> (
    bool,
    Seq<Seq<char>>,
    Seq<char>,
    int,
) {
    match event.code {
        KeyCode::Enter => if blank(text) {
            (true, lines, text, cursor)
        } else {
            (false, lines.push(text), Seq::empty(), 0)
        },
        KeyCode::Char(c) => if is_interrupt(event) {
            (true, lines, text, cursor)
        } else {
            (false, lines, inserted(text, cursor, c).0, inserted(text, cursor, c).1)
        },
        KeyCode::Backspace => (false, lines, backspaced(text, cursor).0, backspaced(text, cursor).1),
        KeyCode::Delete => (false, lines, forward_deleted(text, cursor).0, forward_deleted(text, cursor).1),
        KeyCode::Left => (false, lines, text, if cursor > 0 { cursor - 1 } else { cursor }),
        KeyCode::Right => (false, lines, text, if cursor < text.len() { cursor + 1 } else { cursor }),
        KeyCode::Home => (false, lines, text, 0),
        KeyCode::End => (false, lines, text, text.len() as int),
        KeyCode::Other => (false, lines, text, cursor),
    }
}

/// Enter on a blank line ends the session and commits nothing: the lines
/// collected so far are the result.
pub proof fn lemma_blank_enter_ends(lines: Seq<Seq<char>>, text: Seq<char>, cursor: int, ctrl: bool)
    requires
        blank(text),
    ensures
        key_outcome(KeyEvent { code: KeyCode::Enter, ctrl }, lines, text, cursor).0,
        key_outcome(KeyEvent { code: KeyCode::Enter, ctrl }, lines, text, cursor).1 == lines,
{
}

/// Ctrl+C ends the session and commits nothing, whatever the line holds.
pub proof fn lemma_interrupt_ends(lines: Seq<Seq<char>>, text: Seq<char>, cursor: int)
    ensures
        key_outcome(KeyEvent { code: KeyCode::Char('c'), ctrl: true }, lines, text, cursor).0,
        key_outcome(KeyEvent { code: KeyCode::Char('c'), ctrl: true }, lines, text, cursor).1 == lines,
{
}

/// Moves the terminal cursor to the start of a fresh row below.
pub fn move_to_next_line() -> (ops: Vec<ScreenOp>)
    ensures
        ops@ == seq![ScreenOp::MoveToColumn(0), ScreenOp::NewLine],
{
    let mut ops: Vec<ScreenOp> = Vec::new();
    ops.push(ScreenOp::MoveToColumn(0));
    ops.push(ScreenOp::NewLine);
    ops
}

/// Writes the prompt of line `line_number`.
pub fn print_prompt_with_line_number(line_number: usize) -> (ops: Vec<ScreenOp>)
    ensures
        ops@.len() == 2,
        ops@[0] is Write,
        ops@[0]->Write_0@ == prompt_of(line_number as nat),
        ops@[1] == ScreenOp::Flush,
{
    let mut ops: Vec<ScreenOp> = Vec::new();
    ops.push(ScreenOp::Write(prompt_text(line_number)));
    ops.push(ScreenOp::Flush);
    ops
}

/// Starts line `line_number` on a fresh row: its prompt, then `text`, with
/// the cursor after it.
fn open_line(line_number: usize, text: &Vec<char>) -> (ops: Vec<ScreenOp>)
    ensures
        forall|t: TermRow| #[trigger] on_screen(run(ops@, t), line_number as nat, text@, text@.len() as int),
{
    let mut ops = move_to_next_line();
    let mut prompt = print_prompt_with_line_number(line_number);
    ops.append(&mut prompt);
    ops.push(ScreenOp::Write(text.clone()));
    proof {
        assert forall|t: TermRow| #[trigger] on_screen(run(ops@, t), line_number as nat, text@, text@.len() as int) by {
            reveal_with_fuel(run, 6);
            let p = prompt_of(line_number as nat);
            assert(ops@.drop_last().drop_last().drop_last() =~= seq![ScreenOp::MoveToColumn(0), ScreenOp::NewLine]);
            lemma_write_at_end(Seq::empty(), p);
            lemma_write_at_end(p, text@);
            assert(Seq::<char>::empty().add(p) =~= p);
        }
    }
    ops
}

/// Handles one key event. Returns whether the session ends, and the screen
/// operations that keep the terminal in step.
pub fn handle_key_event(
    event: KeyEvent,
    current_line: &mut Vec<char>,
    builder: &mut Vec<Vec<char>>,
    cursor_pos: &mut usize,
) -> (r: (bool, Vec<ScreenOp>))
    requires
        *old(cursor_pos) <= old(current_line)@.len(),
        old(current_line)@.len() < MAX_LINE_LEN,
        old(builder)@.len() + 2 <= usize::MAX,
    ensures
        (r.0, views(final(builder)@), final(current_line)@, *final(cursor_pos) as int) == key_outcome(
            event,
            views(old(builder)@),
            old(current_line)@,
            *old(cursor_pos) as int,
        ),
        *final(cursor_pos) <= final(current_line)@.len(),
        final(builder)@.len() == old(builder)@.len() + if !r.0 && event.code == KeyCode::Enter {
            1int
        } else {
            0int
        },
        r.0 ==> r.1@.len() == 0 || r.1@ == seq![ScreenOp::MoveToColumn(0), ScreenOp::NewLine],
        !r.0 ==> forall|t: TermRow|
            on_screen(t, (old(builder)@.len() + 1) as nat, old(current_line)@, *old(cursor_pos) as int)
                ==> #[trigger] on_screen(
                run(r.1@, t),
                (final(builder)@.len() + 1) as nat,
                final(current_line)@,
                *final(cursor_pos) as int,
            ),
{
    let line_number = builder.len() + 1;
    match event.code {
        KeyCode::Enter => {
            let mut ops = move_to_next_line();
            if is_blank(current_line) {
                return (true, ops);
            }
            let ghost before = builder@;
            builder.push(current_line.clone());
            proof {
                assert(views(builder@) =~= views(before).push(old(current_line)@));
            }
            current_line.clear();
            *cursor_pos = 0;
            let mut prompt = print_prompt_with_line_number(builder.len() + 1);
            ops.append(&mut prompt);
            proof {
                assert forall|t: TermRow| #[trigger] on_screen(run(ops@, t), (builder@.len() + 1) as nat, current_line@, 0) by {
                    reveal_with_fuel(run, 5);
                    let p = prompt_of((builder@.len() + 1) as nat);
                    lemma_write_at_end(Seq::empty(), p);
                    assert(Seq::<char>::empty().add(p) =~= p);
                    assert(p.add(current_line@) =~= p);
                    assert(ops@.drop_last().drop_last() =~= seq![ScreenOp::MoveToColumn(0), ScreenOp::NewLine]);
                }
            }
            (false, ops)
        },
        KeyCode::Char(c) => {
            if c == 'c' && event.ctrl {
                return (true, Vec::new());
            }
            (false, insert_char_at_cursor(current_line, cursor_pos, c, line_number))
        },
        KeyCode::Backspace => (false, delete_char_at_cursor(current_line, cursor_pos, line_number)),
        KeyCode::Delete => (false, delete_char_forward(current_line, cursor_pos, line_number)),
        KeyCode::Left => (false, move_cursor_left(cursor_pos, line_number)),
        KeyCode::Right => (false, move_cursor_right(current_line, cursor_pos, line_number)),
        KeyCode::Home => (false, move_cursor_to_start(cursor_pos, line_number)),
        KeyCode::End => (false, move_cursor_to_end(current_line, cursor_pos, line_number)),
        KeyCode::Other => (false, Vec::new()),
    }
}

/// The pieces of a paste: its lines, each without leading whitespace.
pub open spec fn paste_pieces(text: Seq<char>) -> Seq<Seq<char>> {
    lines_of(text).map_values(|l: Seq<char>| trimmed_start(l))
}

/// Committed lines, line and cursor after `pieces` are pasted: the first
/// piece goes in at the cursor; each later one first commits the line so far
/// (unless it is blank) and then becomes the line, with the cursor at its end.
pub open spec fn pasted(pieces: Seq<Seq<char>>, lines: Seq<Seq<char>>, text: Seq<char>, cursor: int) -> (
    Seq<Seq<char>>,
    Seq<char>,
    int,
)
    decreases pieces.len(),
{
    if pieces.len() == 0 {
        (lines, text, cursor)
    } else {
        let (ls, t, c) = pasted(pieces.drop_last(), lines, text, cursor);
        let p = pieces.last();
        if pieces.len() == 1 {
            (ls, t.subrange(0, c).add(p).add(t.subrange(c, t.len() as int)), c + p.len())
        } else {
            (if blank(t) { ls } else { ls.push(t) }, p, p.len() as int)
        }
    }
}

/// `line` with `piece` put in at `at`.
fn splice(line: &Vec<char>, at: usize, piece: &Vec<char>) -> (r: Vec<char>)
    requires
        at <= line@.len(),
    ensures
        r@ == line@.subrange(0, at as int).add(piece@).add(line@.subrange(at as int, line@.len() as int)),
{
    let mut r: Vec<char> = Vec::new();
    let mut i: usize = 0;
    while i < at
        invariant
            i <= at <= line@.len(),
            r@ == line@.subrange(0, i as int),
        decreases at - i,
    {
        r.push(line[i]);
        i = i + 1;
        assert(r@ =~= line@.subrange(0, i as int));
    }
    let mut k: usize = 0;
    while k < piece.len()
        invariant
            k <= piece@.len(),
            r@ == line@.subrange(0, at as int).add(piece@.subrange(0, k as int)),
        decreases piece@.len() - k,
    {
        r.push(piece[k]);
        k = k + 1;
        assert(r@ =~= line@.subrange(0, at as int).add(piece@.subrange(0, k as int)));
    }
    let ghost mid = r@;
    assert(piece@.subrange(0, piece@.len() as int) =~= piece@);
    let mut j: usize = at;
    while j < line.len()
        invariant
            at <= j <= line@.len(),
            r@ == mid.add(line@.subrange(at as int, j as int)),
        decreases line@.len() - j,
    {
        r.push(line[j]);
        j = j + 1;
        assert(r@ =~= mid.add(line@.subrange(at as int, j as int)));
    }
    r
}

/// Handles a paste: splits `text` into lines, strips each one's leading
/// whitespace, and feeds them to the editor as `pasted` describes. A paste
/// never ends the session.
pub fn handle_paste_event(
    text: &str,
    current_line: &mut Vec<char>,
    builder: &mut Vec<Vec<char>>,
    cursor_pos: &mut usize,
) -> (ops: Vec<ScreenOp>)
    requires
        *old(cursor_pos) <= old(current_line)@.len(),
        old(current_line)@.len() + text@.len() <= MAX_LINE_LEN,
        old(builder)@.len() + text@.len() + 1 <= usize::MAX,
    ensures
        (views(final(builder)@), final(current_line)@, *final(cursor_pos) as int) == pasted(
            paste_pieces(text@),
            views(old(builder)@),
            old(current_line)@,
            *old(cursor_pos) as int,
        ),
        *final(cursor_pos) <= final(current_line)@.len(),
        final(builder)@.len() <= old(builder)@.len() + text@.len(),
        forall|t: TermRow|
            on_screen(t, (old(builder)@.len() + 1) as nat, old(current_line)@, *old(cursor_pos) as int)
                ==> #[trigger] on_screen(
                run(ops@, t),
                (final(builder)@.len() + 1) as nat,
                final(current_line)@,
                *final(cursor_pos) as int,
            ),
{
    let chars = chars_of(text);
    let lines = split_lines(&chars);
    let ghost pieces = paste_pieces(text@);
    let ghost lines0 = views(builder@);
    let ghost text0 = current_line@;
    let ghost cursor0 = *cursor_pos as int;
    let ghost n0 = (builder@.len() + 1) as nat;
    proof {
        lemma_lines_bounded(chars@);
        assert forall|k: int| 0 <= k < lines@.len() implies (#[trigger] lines@[k])@.len() <= text@.len() by {
            assert(views(lines@)[k] == lines@[k]@);
        }
    }
    let mut ops: Vec<ScreenOp> = Vec::new();
    let mut i: usize = 0;
    while i < lines.len()
        invariant
            views(lines@) == lines_of(chars@),
            chars@ == text@,
            pieces == paste_pieces(text@),
            lines@.len() <= text@.len(),
            forall|k: int| 0 <= k < lines@.len() ==> (#[trigger] lines@[k])@.len() <= text@.len(),
            i <= lines@.len(),
            *cursor_pos <= current_line@.len(),
            current_line@.len() <= text0.len() + text@.len(),
            text0.len() + text@.len() <= MAX_LINE_LEN,
            builder@.len() <= lines0.len() + i,
            lines0.len() + text@.len() + 1 <= usize::MAX,
            (views(builder@), current_line@, *cursor_pos as int) == pasted(
                pieces.subrange(0, i as int),
                lines0,
                text0,
                cursor0,
            ),
            forall|t: TermRow|
                on_screen(t, n0, text0, cursor0) ==> #[trigger] on_screen(
                    run(ops@, t),
                    (builder@.len() + 1) as nat,
                    current_line@,
                    *cursor_pos as int,
                ),
        decreases lines@.len() - i,
    {
        let piece = trim_start(&lines[i]);
        let ghost ps = pieces.subrange(0, i + 1);
        proof {
            assert(views(lines@)[i as int] == lines@[i as int]@);
            assert(ps.drop_last() =~= pieces.subrange(0, i as int));
            assert(ps.last() == piece@);
            assert(piece@.len() <= text@.len());
        }
        let ghost ops_before = ops@;
        let ghost n_before = (builder@.len() + 1) as nat;
        let ghost line_before = current_line@;
        let ghost cursor_before = *cursor_pos as int;
        proof {
            assert forall|t: TermRow| on_screen(t, n0, text0, cursor0) implies #[trigger] on_screen(
                run(ops_before, t),
                n_before,
                line_before,
                cursor_before,
            ) by {}
        }
        let line_number = builder.len() + 1;
        if i == 0 {
            let at = *cursor_pos;
            let line = splice(current_line, at, &piece);
            *current_line = line;
            *cursor_pos = at + piece.len();
            let mut step = redraw_line_after_insert(current_line, at, *cursor_pos, line_number);
            proof {
                lemma_prompt_width_bound(line_number);
                assert(line_before.subrange(0, at as int) =~= current_line@.subrange(0, at as int));
                assert forall|t: TermRow| on_screen(t, n0, text0, cursor0) implies #[trigger] on_screen(
                    run(ops_before.add(step@), t),
                    (builder@.len() + 1) as nat,
                    current_line@,
                    *cursor_pos as int,
                ) by {
                    lemma_run_add(ops_before, step@, t);
                    assert(on_screen(run(ops_before, t), n_before, line_before, cursor_before));
                    lemma_redraw_syncs(step@, n_before, line_before, current_line@, at as int, *cursor_pos as int, run(ops_before, t));
                }
            }
            ops.append(&mut step);
        } else {
            let mut step = open_line_after_commit(current_line, builder, &piece);
            *cursor_pos = current_line.len();
            proof {
                assert forall|t: TermRow| on_screen(t, n0, text0, cursor0) implies #[trigger] on_screen(
                    run(ops_before.add(step@), t),
                    (builder@.len() + 1) as nat,
                    current_line@,
                    *cursor_pos as int,
                ) by {
                    lemma_run_add(ops_before, step@, t);
                }
            }
            ops.append(&mut step);
        }
        i = i + 1;
    }
    proof {
        assert(pieces.len() == lines@.len());
        assert(pieces.subrange(0, i as int) =~= pieces);
    }
    let ghost prev = ops@;
    ops.push(ScreenOp::Flush);
    proof {
        assert forall|t: TermRow| on_screen(t, n0, text0, cursor0) implies #[trigger] on_screen(
            run(ops@, t),
            (builder@.len() + 1) as nat,
            current_line@,
            *cursor_pos as int,
        ) by {
            lemma_run_push(prev, ScreenOp::Flush, t);
        }
    }
    ops
}

/// Commits `current_line` unless it is blank, makes `piece` the line, and
/// shows it on a fresh row.
fn open_line_after_commit(current_line: &mut Vec<char>, builder: &mut Vec<Vec<char>>, piece: &Vec<char>) -> (ops: Vec<
    ScreenOp,
>)
    requires
        old(builder)@.len() + 2 <= usize::MAX,
    ensures
        views(final(builder)@) == if blank(old(current_line)@) {
            views(old(builder)@)
        } else {
            views(old(builder)@).push(old(current_line)@)
        },
        final(builder)@.len() <= old(builder)@.len() + 1,
        final(current_line)@ == piece@,
        forall|t: TermRow| #[trigger] on_screen(run(ops@, t), (final(builder)@.len() + 1) as nat, piece@, piece@.len() as int),
{
    if !is_blank(current_line) {
        let ghost before = builder@;
        builder.push(current_line.clone());
        proof {
            assert(views(builder@) =~= views(before).push(old(current_line)@));
        }
    }
    *current_line = piece.clone();
    open_line(builder.len() + 1, piece)
}

/// An event read from the terminal.
#[derive(Debug, PartialEq, Eq)]
pub enum EditorEvent {
    Key(KeyEvent),
    /// Text pasted in one piece.
    Paste(String),
    /// Any other event (resize, focus, mouse): ignored.
    Other,
}

/// What the session shows when it starts: the prompt of the first line.
pub fn start_session() -> (ops: Vec<ScreenOp>)
    ensures
        forall|t: TermRow| t.shown.len() == 0 && t.col == 0 ==> #[trigger] on_screen(run(ops@, t), 1, Seq::empty(), 0),
{
    let ops = print_prompt_with_line_number(1);
    proof {
        assert forall|t: TermRow| t.shown.len() == 0 && t.col == 0 implies #[trigger] on_screen(
            run(ops@, t),
            1,
            Seq::empty(),
            0,
        ) by {
            reveal_with_fuel(run, 3);
            let p = prompt_of(1);
            lemma_write_at_end(t.shown, p);
            assert(t.shown.add(p) =~= p);
            assert(p.add(Seq::<char>::empty()) =~= p);
            assert(ops@.drop_last().drop_last() =~= Seq::<ScreenOp>::empty());
        }
    }
    ops
}

/// Handles one event of any kind: keys as `handle_key_event` does, pastes
/// as `handle_paste_event` does, and nothing for the rest. Returns whether
/// the session ends, and the screen operations.
pub fn handle_event(
    event: &EditorEvent,
    current_line: &mut Vec<char>,
    builder: &mut Vec<Vec<char>>,
    cursor_pos: &mut usize,
) -> (r: (bool, Vec<ScreenOp>))
    requires
        *old(cursor_pos) <= old(current_line)@.len(),
        old(current_line)@.len() < MAX_LINE_LEN,
        old(builder)@.len() + 2 <= usize::MAX,
        event matches EditorEvent::Paste(text) ==> {
            &&& old(current_line)@.len() + text@.len() <= MAX_LINE_LEN
            &&& old(builder)@.len() + text@.len() + 1 <= usize::MAX
        },
    ensures
        match event {
            EditorEvent::Key(k) => (r.0, views(final(builder)@), final(current_line)@, *final(cursor_pos) as int)
                == key_outcome(*k, views(old(builder)@), old(current_line)@, *old(cursor_pos) as int),
            EditorEvent::Paste(text) => !r.0 && (views(final(builder)@), final(current_line)@, *final(cursor_pos) as int)
                == pasted(paste_pieces(text@), views(old(builder)@), old(current_line)@, *old(cursor_pos) as int),
            EditorEvent::Other => !r.0 && final(builder)@ == old(builder)@ && final(current_line)@ == old(current_line)@
                && *final(cursor_pos) == *old(cursor_pos) && r.1@.len() == 0,
        },
        match event {
            EditorEvent::Key(k) => final(builder)@.len() == old(builder)@.len() + if !r.0 && k.code == KeyCode::Enter {
                1int
            } else {
                0int
            },
            EditorEvent::Paste(text) => final(builder)@.len() <= old(builder)@.len() + text@.len(),
            EditorEvent::Other => final(builder)@.len() == old(builder)@.len(),
        },
        *final(cursor_pos) <= final(current_line)@.len(),
        !r.0 ==> forall|t: TermRow|
            on_screen(t, (old(builder)@.len() + 1) as nat, old(current_line)@, *old(cursor_pos) as int)
                ==> #[trigger] on_screen(
                run(r.1@, t),
                (final(builder)@.len() + 1) as nat,
                final(current_line)@,
                *final(cursor_pos) as int,
            ),
{
    match event {
        EditorEvent::Key(k) => handle_key_event(*k, current_line, builder, cursor_pos),
        EditorEvent::Paste(text) => (false, handle_paste_event(text.as_str(), current_line, builder, cursor_pos)),
        EditorEvent::Other => (false, Vec::new()),
    }
}

} // verus!
