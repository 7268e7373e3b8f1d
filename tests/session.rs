use quot::editor::MAX_LINE_LEN;
use quot::prompt::{get_prompt_width, prompt_text};
use quot::screen::ScreenOp;
use quot::session::{
    handle_event, handle_key_event, handle_paste_event, move_to_next_line,
    print_prompt_with_line_number, start_session, EditorEvent, KeyCode, KeyEvent,
};
use quot::text::join_lines;

fn chars(s: &str) -> Vec<char> {
    s.chars().collect()
}

fn key(code: KeyCode) -> KeyEvent {
    KeyEvent { code, ctrl: false }
}

struct Editor {
    line: Vec<char>,
    builder: Vec<Vec<char>>,
    cursor: usize,
    row: Vec<char>,
    col: usize,
    ended: bool,
}

impl Editor {
    fn new() -> Editor {
        let mut e = Editor {
            line: Vec::new(),
            builder: Vec::new(),
            cursor: 0,
            row: Vec::new(),
            col: 0,
            ended: false,
        };
        let ops = start_session();
        e.perform(&ops);
        e
    }

    fn perform(&mut self, ops: &[ScreenOp]) {
        for op in ops {
            match op {
                ScreenOp::MoveToColumn(c) => self.col = *c,
                ScreenOp::MoveLeft => self.col = self.col.saturating_sub(1),
                ScreenOp::MoveRight => self.col += 1,
                ScreenOp::ClearToEnd => self.row.truncate(self.col),
                ScreenOp::Write(s) => {
                    while self.row.len() < self.col {
                        self.row.push(' ');
                    }
                    for (k, ch) in s.iter().enumerate() {
                        if self.col + k < self.row.len() {
                            self.row[self.col + k] = *ch;
                        } else {
                            self.row.push(*ch);
                        }
                    }
                    self.col += s.len();
                }
                ScreenOp::NewLine => self.row.clear(),
                ScreenOp::Flush => {}
            }
        }
    }

    fn send(&mut self, event: EditorEvent) {
        assert!(!self.ended);
        let (end, ops) = handle_event(&event, &mut self.line, &mut self.builder, &mut self.cursor);
        self.perform(&ops);
        self.ended = end;
        if !end {
            let n = self.builder.len() + 1;
            let mut expected = prompt_text(n);
            expected.extend_from_slice(&self.line);
            assert_eq!(self.row, expected);
            assert_eq!(self.col, get_prompt_width(n) + self.cursor);
        }
    }

    fn press(&mut self, code: KeyCode) {
        self.send(EditorEvent::Key(key(code)));
    }

    fn type_text(&mut self, s: &str) {
        for c in s.chars() {
            self.press(KeyCode::Char(c));
        }
    }

    fn result(&self) -> String {
        join_lines(&self.builder)
    }
}

#[test]
fn test_handle_key_event_ctrl_c() {
    let mut line = chars("abc");
    let mut builder: Vec<Vec<char>> = Vec::new();
    let mut cursor_pos = 3;
    let ctrl_c = KeyEvent { code: KeyCode::Char('c'), ctrl: true };
    let (end, ops) = handle_key_event(ctrl_c, &mut line, &mut builder, &mut cursor_pos);
    assert!(end);
    assert!(ops.is_empty());
    assert!(builder.is_empty());

    let plain_c = key(KeyCode::Char('c'));
    let (end, _) = handle_key_event(plain_c, &mut line, &mut builder, &mut cursor_pos);
    assert!(!end);
    assert_eq!(line, chars("abcc"));
}

#[test]
fn test_handle_key_event_enter() {
    let mut current_line = chars("test line");
    let mut builder: Vec<Vec<char>> = Vec::new();
    let mut cursor_pos = 9;
    let (end, _) = handle_key_event(key(KeyCode::Enter), &mut current_line, &mut builder, &mut cursor_pos);
    assert!(!end);
    assert_eq!(builder.len(), 1);
    assert_eq!(builder[0], chars("test line"));
    assert_eq!(current_line, Vec::<char>::new());
    assert_eq!(cursor_pos, 0);

    let (end, ops) = handle_key_event(key(KeyCode::Enter), &mut current_line, &mut builder, &mut cursor_pos);
    assert!(end);
    assert_eq!(builder.len(), 1);
    assert_eq!(ops, move_to_next_line());
}

#[test]
fn test_paste_event_logic() {
    let mut line: Vec<char> = Vec::new();
    let mut builder: Vec<Vec<char>> = Vec::new();
    let mut cursor_pos = 0;
    handle_paste_event("line1\nline2\nline3", &mut line, &mut builder, &mut cursor_pos);
    assert_eq!(builder.len(), 2);
    assert_eq!(builder[0], chars("line1"));
    assert_eq!(builder[1], chars("line2"));
    assert_eq!(line, chars("line3"));
    assert_eq!(cursor_pos, 5);

    let mut line: Vec<char> = Vec::new();
    let mut builder: Vec<Vec<char>> = Vec::new();
    let mut cursor_pos = 0;
    handle_paste_event("  indented line  ", &mut line, &mut builder, &mut cursor_pos);
    assert_eq!(line, chars("indented line  "));
}

#[test]
fn typed_line_with_an_edit_in_the_middle() {
    let mut e = Editor::new();
    e.type_text("hello");
    e.press(KeyCode::Left);
    e.press(KeyCode::Left);
    e.type_text("X");
    e.press(KeyCode::Enter);
    e.press(KeyCode::Enter);
    assert!(e.ended);
    assert_eq!(e.result(), "helXlo");
}

#[test]
fn enter_on_the_first_empty_line_ends_with_nothing() {
    let mut e = Editor::new();
    e.press(KeyCode::Enter);
    assert!(e.ended);
    assert_eq!(e.result(), "");
}

#[test]
fn whitespace_only_line_ends_the_session() {
    let mut e = Editor::new();
    e.type_text("one");
    e.press(KeyCode::Enter);
    e.type_text(" \t\u{3000}");
    e.press(KeyCode::Enter);
    assert!(e.ended);
    assert_eq!(e.result(), "one");
}

#[test]
fn ctrl_c_drops_the_line_in_progress() {
    let mut e = Editor::new();
    e.type_text("kept");
    e.press(KeyCode::Enter);
    e.type_text("dropped");
    e.send(EditorEvent::Key(KeyEvent { code: KeyCode::Char('c'), ctrl: true }));
    assert!(e.ended);
    assert_eq!(e.result(), "kept");
}

#[test]
fn paste_of_three_lines_then_ctrl_c() {
    let mut e = Editor::new();
    e.send(EditorEvent::Paste("a\nb\nc".to_string()));
    assert_eq!(e.builder, vec![chars("a"), chars("b")]);
    assert_eq!(e.line, chars("c"));
    assert_eq!(e.cursor, 1);
    e.send(EditorEvent::Key(KeyEvent { code: KeyCode::Char('c'), ctrl: true }));
    assert_eq!(e.result(), "a\nb");
}

#[test]
fn paste_strips_leading_whitespace_of_the_first_piece() {
    let mut e = Editor::new();
    e.send(EditorEvent::Paste("  indented".to_string()));
    assert_eq!(e.line, chars("indented"));
    assert_eq!(e.cursor, 8);
}

#[test]
fn paste_goes_in_at_the_cursor() {
    let mut e = Editor::new();
    e.type_text("abef");
    e.press(KeyCode::Left);
    e.press(KeyCode::Left);
    e.send(EditorEvent::Paste("cd".to_string()));
    assert_eq!(e.line, chars("abcdef"));
    assert_eq!(e.cursor, 4);
    e.type_text("!");
    assert_eq!(e.line, chars("abcd!ef"));
}

#[test]
fn paste_skips_blank_lines_and_never_ends_the_session() {
    let mut e = Editor::new();
    e.send(EditorEvent::Paste("x\n\n   \r\ny\r\n".to_string()));
    assert!(!e.ended);
    assert_eq!(e.builder, vec![chars("x")]);
    assert_eq!(e.line, chars("y"));
    e.send(EditorEvent::Paste(String::new()));
    assert!(!e.ended);
    assert_eq!(e.line, chars("y"));
    e.press(KeyCode::Enter);
    e.press(KeyCode::Enter);
    assert_eq!(e.result(), "x\ny");
}

#[test]
fn other_keys_and_events_are_ignored() {
    let mut e = Editor::new();
    e.type_text("ab");
    e.press(KeyCode::Other);
    e.send(EditorEvent::Other);
    assert_eq!(e.line, chars("ab"));
    assert_eq!(e.cursor, 2);
    assert!(!e.ended);
}

#[test]
fn all_editing_keys_in_one_session() {
    let mut e = Editor::new();
    e.type_text("world");
    e.press(KeyCode::Home);
    e.type_text("hello ");
    e.press(KeyCode::End);
    e.press(KeyCode::Backspace);
    e.press(KeyCode::Home);
    e.press(KeyCode::Right);
    e.press(KeyCode::Delete);
    e.press(KeyCode::Enter);
    for i in 0..12 {
        e.type_text(&format!("line {i}"));
        e.press(KeyCode::Left);
        e.press(KeyCode::Backspace);
        e.press(KeyCode::Enter);
    }
    assert_eq!(e.builder.len(), 13);
    e.press(KeyCode::Enter);
    assert!(e.ended);
    let result = e.result();
    assert!(result.starts_with("hllo worl\nline0\nline1\n"));
    assert!(result.ends_with("\nline9\nline 0\nline 1"));
}

#[test]
fn screen_operations_for_prompt_and_new_line() {
    assert_eq!(
        print_prompt_with_line_number(3),
        vec![ScreenOp::Write(chars(" 3> ")), ScreenOp::Flush]
    );
    assert_eq!(move_to_next_line(), vec![ScreenOp::MoveToColumn(0), ScreenOp::NewLine]);
    assert!(MAX_LINE_LEN > 1_000_000);
}
