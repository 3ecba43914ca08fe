use hecto::editor::{Editor, Key, KeyPress, Request, SaveStep};
use hecto::position::Position;
use hecto::terminal::{Size, Terminal};

fn chars(s: &str) -> Vec<char> {
    s.chars().collect()
}

fn string(v: &[char]) -> String {
    v.iter().collect()
}

fn key(code: Key) -> KeyPress {
    KeyPress { code, ctrl: false }
}

fn ctrl(c: char) -> KeyPress {
    KeyPress { code: Key::Char(c), ctrl: true }
}

fn term(columns: u16, rows: u16) -> Terminal {
    Terminal::with_size(Size { columns, rows })
}

fn editor_with(lines: &[&str], columns: u16, rows: u16) -> Editor {
    Editor::default(
        term(columns, rows),
        Some(chars("file.txt")),
        Some(chars(&lines.iter().map(|l| format!("{}\n", l)).collect::<String>())),
        0,
    )
}

fn text(e: &Editor) -> Vec<String> {
    e.document().to_lines().into_iter().map(|l| l.into_iter().collect()).collect()
}

fn press(e: &mut Editor, code: Key, times: usize) {
    for _ in 0..times {
        e.process_keypress(key(code));
    }
}

fn at(e: &Editor) -> (usize, usize) {
    let p = e.cursor_position();
    (p.x, p.y)
}

#[test]
fn left_then_right_across_abc() {
    let mut e = editor_with(&["abc"], 80, 23);
    press(&mut e, Key::End, 1);
    assert_eq!(at(&e), (3, 0));
    press(&mut e, Key::Left, 3);
    assert_eq!(at(&e), (0, 0));
    press(&mut e, Key::Right, 3);
    assert_eq!(at(&e), (3, 0));
}

#[test]
fn delete_at_end_of_row_joins_next() {
    let mut e = editor_with(&["ab", "cd"], 80, 23);
    press(&mut e, Key::End, 1);
    assert_eq!(at(&e), (2, 0));
    press(&mut e, Key::Delete, 1);
    assert_eq!(text(&e), vec!["abcd"]);
    assert_eq!(at(&e), (2, 0));
}

#[test]
fn left_at_line_start_wraps_to_previous_end() {
    let mut e = editor_with(&["hello", "xy"], 80, 23);
    press(&mut e, Key::Down, 1);
    assert_eq!(at(&e), (0, 1));
    press(&mut e, Key::Left, 1);
    assert_eq!(at(&e), (5, 0));
    press(&mut e, Key::Home, 1);
    press(&mut e, Key::Left, 1);
    assert_eq!(at(&e), (0, 0));
}

#[test]
fn right_at_line_end_wraps_to_next_start() {
    let mut e = editor_with(&["ab", "c"], 80, 23);
    press(&mut e, Key::Right, 3);
    assert_eq!(at(&e), (0, 1));
    press(&mut e, Key::Right, 2);
    assert_eq!(at(&e), (0, 2));
    press(&mut e, Key::Right, 1);
    assert_eq!(at(&e), (0, 2));
}

#[test]
fn vertical_move_clamps_column() {
    let mut e = editor_with(&["long line", "ab", "longer line"], 80, 23);
    press(&mut e, Key::End, 1);
    assert_eq!(at(&e), (9, 0));
    press(&mut e, Key::Down, 1);
    assert_eq!(at(&e), (2, 1));
    press(&mut e, Key::Down, 1);
    assert_eq!(at(&e), (2, 2));
    press(&mut e, Key::Down, 1);
    assert_eq!(at(&e), (0, 3));
    press(&mut e, Key::Down, 1);
    assert_eq!(at(&e), (0, 3));
    press(&mut e, Key::Up, 4);
    assert_eq!(at(&e), (0, 0));
}

#[test]
fn page_keys_move_by_viewport_height() {
    let lines: Vec<String> = (0..50).map(|i| format!("line {}", i)).collect();
    let refs: Vec<&str> = lines.iter().map(|s| s.as_str()).collect();
    let mut e = editor_with(&refs, 80, 10);
    press(&mut e, Key::PageDown, 1);
    assert_eq!(at(&e), (0, 10));
    press(&mut e, Key::PageDown, 4);
    assert_eq!(at(&e), (0, 50));
    press(&mut e, Key::PageUp, 1);
    assert_eq!(at(&e), (0, 40));
    press(&mut e, Key::PageUp, 5);
    assert_eq!(at(&e), (0, 0));
}

#[test]
fn scroll_keeps_cursor_in_window() {
    let lines: Vec<String> = (0..30).map(|i| "x".repeat(i)).collect();
    let refs: Vec<&str> = lines.iter().map(|s| s.as_str()).collect();
    let mut e = editor_with(&refs, 8, 5);
    press(&mut e, Key::Down, 29);
    press(&mut e, Key::End, 1);
    assert_eq!(at(&e), (29, 29));
    assert_eq!(e.offset(), Position { x: 22, y: 25 });
    press(&mut e, Key::Up, 10);
    assert_eq!(at(&e), (19, 19));
    assert_eq!(e.offset(), Position { x: 19, y: 19 });
    press(&mut e, Key::Home, 1);
    assert_eq!(e.offset(), Position { x: 0, y: 19 });
    let (x, y) = at(&e);
    let o = e.offset();
    assert!(o.y <= y && y < o.y + 5);
    assert!(o.x <= x && x < o.x + 8);
}

#[test]
fn backspace_at_line_start_joins_lines() {
    let mut e = editor_with(&["ab", "cd", "ef"], 80, 23);
    press(&mut e, Key::Down, 1);
    press(&mut e, Key::Backspace, 1);
    assert_eq!(text(&e), vec!["abcd", "ef"]);
    assert_eq!(at(&e), (2, 0));
    press(&mut e, Key::Home, 1);
    press(&mut e, Key::Backspace, 1);
    assert_eq!(text(&e), vec!["abcd", "ef"]);
    assert_eq!(at(&e), (0, 0));
}

#[test]
fn typing_inserts_and_moves_right() {
    let mut e = editor_with(&["ac"], 80, 23);
    press(&mut e, Key::Right, 1);
    press(&mut e, Key::Char('b'), 1);
    assert_eq!(text(&e), vec!["abc"]);
    assert_eq!(at(&e), (2, 0));
    press(&mut e, Key::Down, 1);
    press(&mut e, Key::Char('z'), 1);
    assert_eq!(text(&e), vec!["abc", "z"]);
    assert_eq!(at(&e), (1, 1));
}

#[test]
fn enter_splits_line_and_moves_down() {
    let mut e = editor_with(&["hello"], 80, 23);
    press(&mut e, Key::Right, 2);
    press(&mut e, Key::Enter, 1);
    assert_eq!(text(&e), vec!["he", "llo"]);
    assert_eq!(at(&e), (2, 1));
}

#[test]
fn control_keys_quit_and_save() {
    let mut e = editor_with(&["a"], 80, 23);
    assert_eq!(e.process_keypress(ctrl('s')), Request::Save);
    assert!(!e.should_quit());
    assert_eq!(text(&e), vec!["a"]);
    assert_eq!(e.process_keypress(ctrl('q')), Request::Nothing);
    assert!(e.should_quit());
    assert_eq!(text(&e), vec!["a"]);
}

#[test]
fn new_session_messages() {
    let e = Editor::default(term(80, 23), None, None, 7);
    assert!(e.document().is_empty());
    assert_eq!(string(&e.status_message().text), "HELP: Ctrl+s == save | Ctrl+q = quit");
    assert_eq!(e.status_message().time, 7);
    let f = Editor::default(term(80, 23), Some(chars("gone.txt")), None, 0);
    assert!(f.document().is_empty());
    assert!(f.document().file_name().is_none());
    assert_eq!(string(&f.status_message().text), "ERR: Could not open file: gone.txt");
}

#[test]
fn save_flow_asks_for_name_when_unbound() {
    let mut e = Editor::default(term(80, 23), None, None, 0);
    assert_eq!(e.save(), SaveStep::AskName);
    let prompt = chars("Save as: ");
    let mut input = Vec::new();
    assert!(!e.prompt(&prompt, &mut input, key(Key::Char('a')), 1));
    assert!(!e.prompt(&prompt, &mut input, key(Key::Char('b')), 2));
    assert!(!e.prompt(&prompt, &mut input, ctrl('x'), 3));
    assert!(!e.prompt(&prompt, &mut input, key(Key::Backspace), 4));
    assert!(!e.prompt(&prompt, &mut input, key(Key::Char('c')), 5));
    assert_eq!(string(&e.status_message().text), "Save as: ac");
    assert!(e.prompt(&prompt, &mut input, key(Key::Enter), 6));
    let name = e.prompt_finished(input, 6);
    assert_eq!(name, Some(chars("ac")));
    assert!(e.status_message().text.is_empty());
    assert!(e.name_chosen(name, 6));
    assert_eq!(e.save(), SaveStep::Write);
    e.save_finished(true, 7);
    assert_eq!(string(&e.status_message().text), "File saved successfully");
    e.save_finished(false, 8);
    assert_eq!(string(&e.status_message().text), "Error writing file!");
}

#[test]
fn prompt_cancel_aborts_save() {
    let mut e = Editor::default(term(80, 23), None, None, 0);
    let prompt = chars("Save as: ");
    let mut input = Vec::new();
    assert!(!e.prompt(&prompt, &mut input, key(Key::Char('a')), 1));
    assert!(e.prompt(&prompt, &mut input, key(Key::Esc), 2));
    assert!(input.is_empty());
    let name = e.prompt_finished(input, 2);
    assert_eq!(name, None);
    assert!(!e.name_chosen(name, 3));
    assert_eq!(string(&e.status_message().text), "Save aborted!");
    assert_eq!(e.save(), SaveStep::AskName);
}

#[test]
fn terminal_keeps_two_rows_for_status_lines() {
    let t = Terminal::from_window(80, 24);
    assert_eq!(*t.size(), Size { columns: 80, rows: 22 });
    let u = Terminal::from_window(10, 1);
    assert_eq!(*u.size(), Size { columns: 10, rows: 0 });
    assert_eq!(Position::default(), Position { x: 0, y: 0 });
}
