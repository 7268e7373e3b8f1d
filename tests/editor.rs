use quot::editor::{
    delete_char_at_cursor, delete_char_forward, insert_char_at_cursor, move_cursor_left,
    move_cursor_right, move_cursor_to_end, move_cursor_to_start, redraw_line_from_cursor,
};
use quot::prompt::{get_prompt_width, prompt_text};
use quot::screen::ScreenOp;

fn chars(s: &str) -> Vec<char> {
    s.chars().collect()
}

/// Performs `ops` on a row of characters and a cursor column, as a terminal would.
fn perform(row: &mut Vec<char>, col: &mut usize, ops: &[ScreenOp]) {
    for op in ops {
        match op {
            ScreenOp::MoveToColumn(c) => *col = *c,
            ScreenOp::MoveLeft => *col = col.saturating_sub(1),
            ScreenOp::MoveRight => *col += 1,
            ScreenOp::ClearToEnd => row.truncate(*col),
            ScreenOp::Write(s) => {
                while row.len() < *col {
                    row.push(' ');
                }
                for (k, ch) in s.iter().enumerate() {
                    if *col + k < row.len() {
                        row[*col + k] = *ch;
                    } else {
                        row.push(*ch);
                    }
                }
                *col += s.len();
            }
            ScreenOp::NewLine => row.clear(),
            ScreenOp::Flush => {}
        }
    }
}

fn screen_for(line: &[char], cursor: usize, n: usize) -> (Vec<char>, usize) {
    let mut row = prompt_text(n);
    row.extend_from_slice(line);
    (row, get_prompt_width(n) + cursor)
}

#[test]
fn test_insert_char_at_cursor() {
    let mut line = chars("hello");
    let mut cursor_pos = 2;
    insert_char_at_cursor(&mut line, &mut cursor_pos, 'X', 1);
    assert_eq!(line, chars("heXllo"));
    assert_eq!(cursor_pos, 3);
}

#[test]
fn test_cursor_movement_logic() {
    let line = chars("hello");
    let mut cursor_pos = 2;
    move_cursor_left(&mut cursor_pos, 1);
    assert_eq!(cursor_pos, 1);
    move_cursor_right(&line, &mut cursor_pos, 1);
    assert_eq!(cursor_pos, 2);
    move_cursor_to_start(&mut cursor_pos, 1);
    assert_eq!(cursor_pos, 0);
    move_cursor_to_end(&line, &mut cursor_pos, 1);
    assert_eq!(cursor_pos, 5);
}

#[test]
fn test_delete_operations() {
    let mut line = chars("hello");
    let mut cursor_pos = 2;
    delete_char_at_cursor(&mut line, &mut cursor_pos, 1);
    assert_eq!(line, chars("hllo"));
    assert_eq!(cursor_pos, 1);

    line = chars("hello");
    cursor_pos = 2;
    delete_char_forward(&mut line, &mut cursor_pos, 1);
    assert_eq!(line, chars("helo"));
    assert_eq!(cursor_pos, 2);
}

#[test]
fn edits_at_the_boundaries_do_nothing() {
    let mut line = chars("ab");
    let mut cursor_pos = 0;
    assert!(delete_char_at_cursor(&mut line, &mut cursor_pos, 1).is_empty());
    assert!(move_cursor_left(&mut cursor_pos, 1).is_empty());
    assert_eq!((line.clone(), cursor_pos), (chars("ab"), 0));
    cursor_pos = 2;
    assert!(delete_char_forward(&mut line, &mut cursor_pos, 1).is_empty());
    assert!(move_cursor_right(&line, &mut cursor_pos, 1).is_empty());
    assert_eq!((line, cursor_pos), (chars("ab"), 2));
}

#[test]
fn edits_on_an_empty_line() {
    let mut line: Vec<char> = Vec::new();
    let mut cursor_pos = 0;
    delete_char_at_cursor(&mut line, &mut cursor_pos, 1);
    delete_char_forward(&mut line, &mut cursor_pos, 1);
    move_cursor_to_end(&line, &mut cursor_pos, 1);
    assert!(line.is_empty());
    assert_eq!(cursor_pos, 0);
}

#[test]
fn insert_then_backspace_restores_the_line() {
    let mut line = chars("abc");
    let mut cursor_pos = 1;
    insert_char_at_cursor(&mut line, &mut cursor_pos, 'z', 3);
    assert_eq!(line, chars("azbc"));
    delete_char_at_cursor(&mut line, &mut cursor_pos, 3);
    assert_eq!(line, chars("abc"));
    assert_eq!(cursor_pos, 1);
}

#[test]
fn cursor_stays_within_the_line() {
    let mut line: Vec<char> = Vec::new();
    let mut cursor_pos = 0;
    for c in "héllo wörld".chars() {
        insert_char_at_cursor(&mut line, &mut cursor_pos, c, 1);
        assert!(cursor_pos <= line.len());
    }
    for _ in 0..20 {
        move_cursor_right(&line, &mut cursor_pos, 1);
        assert!(cursor_pos <= line.len());
    }
    for _ in 0..4 {
        move_cursor_left(&mut cursor_pos, 1);
        delete_char_forward(&mut line, &mut cursor_pos, 1);
        assert!(cursor_pos <= line.len());
    }
    for _ in 0..20 {
        delete_char_at_cursor(&mut line, &mut cursor_pos, 1);
        assert!(cursor_pos <= line.len());
    }
    assert_eq!(cursor_pos, 0);
    assert!(line.is_empty());
}

#[test]
fn terminal_follows_every_edit() {
    let n = 12;
    let mut line: Vec<char> = Vec::new();
    let mut cursor_pos = 0;
    let (mut row, mut col) = screen_for(&line, cursor_pos, n);
    for c in "typing".chars() {
        let ops = insert_char_at_cursor(&mut line, &mut cursor_pos, c, n);
        perform(&mut row, &mut col, &ops);
        assert_eq!((row.clone(), col), screen_for(&line, cursor_pos, n));
    }
    let steps: Vec<u8> = vec![0, 0, 1, 2, 3, 4, 5, 0, 1, 6];
    for s in steps {
        let ops = match s {
            0 => move_cursor_left(&mut cursor_pos, n),
            1 => delete_char_at_cursor(&mut line, &mut cursor_pos, n),
            2 => move_cursor_to_start(&mut cursor_pos, n),
            3 => delete_char_forward(&mut line, &mut cursor_pos, n),
            4 => move_cursor_to_end(&line, &mut cursor_pos, n),
            5 => insert_char_at_cursor(&mut line, &mut cursor_pos, '!', n),
            _ => move_cursor_right(&line, &mut cursor_pos, n),
        };
        perform(&mut row, &mut col, &ops);
        assert_eq!((row.clone(), col), screen_for(&line, cursor_pos, n));
    }
    assert_eq!(line, chars("ypn!"));
}

#[test]
fn insert_redraws_only_the_tail() {
    let mut line = chars("hello");
    let mut cursor_pos = 2;
    let ops = insert_char_at_cursor(&mut line, &mut cursor_pos, 'X', 1);
    assert_eq!(
        ops,
        vec![
            ScreenOp::MoveToColumn(6),
            ScreenOp::ClearToEnd,
            ScreenOp::Write(chars("Xllo")),
            ScreenOp::MoveToColumn(7),
            ScreenOp::Flush,
        ]
    );
}

#[test]
fn redraw_from_cursor_keeps_the_cursor() {
    let line = chars("hello");
    let ops = redraw_line_from_cursor(&line, 3, 100);
    assert_eq!(
        ops,
        vec![
            ScreenOp::MoveToColumn(8),
            ScreenOp::ClearToEnd,
            ScreenOp::Write(chars("lo")),
            ScreenOp::MoveToColumn(8),
            ScreenOp::Flush,
        ]
    );
}

#[test]
fn home_and_end_place_the_cursor_after_the_prompt() {
    let line = chars("abc");
    let mut cursor_pos = 1;
    assert_eq!(
        move_cursor_to_end(&line, &mut cursor_pos, 5),
        vec![ScreenOp::MoveToColumn(7), ScreenOp::Flush]
    );
    assert_eq!(
        move_cursor_to_start(&mut cursor_pos, 5),
        vec![ScreenOp::MoveToColumn(4), ScreenOp::Flush]
    );
}

#[test]
fn prompt_width_follows_the_line_number() {
    assert_eq!(prompt_text(7), chars(" 7> "));
    assert_eq!(prompt_text(42), chars("42> "));
    assert_eq!(prompt_text(123), chars("123> "));
    assert_eq!(get_prompt_width(1), 4);
    assert_eq!(get_prompt_width(99), 4);
    assert_eq!(get_prompt_width(100), 5);
    assert_eq!(get_prompt_width(0), 4);
    assert_eq!(get_prompt_width(usize::MAX), 22);
}
