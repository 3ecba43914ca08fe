use hecto::editor::{Editor, Key, KeyPress};
use hecto::terminal::{Size, Terminal};
use hecto::text::decimal_chars;

fn chars(s: &str) -> Vec<char> {
    s.chars().collect()
}

fn string(v: &[char]) -> String {
    v.iter().collect()
}

fn term(columns: u16, rows: u16) -> Terminal {
    Terminal::with_size(Size { columns, rows })
}

#[test]
fn empty_document_screen() {
    let e = Editor::default(term(80, 23), None, None, 0);
    let banner = chars("Hecto Editor -- version(0.1.0)");
    let frame = e.refresh_screen(&banner, 0);
    assert_eq!(frame.rows.len(), 23);
    for (i, row) in frame.rows.iter().enumerate() {
        if i == 7 {
            let line = string(row);
            let pad = (80 - banner.len()) / 2 - 1;
            assert_eq!(line, format!("~{}{}", " ".repeat(pad), string(&banner)));
        } else {
            assert_eq!(string(row), "~");
        }
    }
    let status = string(&frame.status);
    assert_eq!(status.chars().count(), 80);
    assert!(status.starts_with("[No Name] - 0 lines"));
    assert!(status.ends_with(" 1/0"));
    assert_eq!(status, format!("[No Name] - 0 lines{}1/0", " ".repeat(80 - 19 - 3)));
}

#[test]
fn welcome_banner_cut_to_width() {
    let e = Editor::default(term(10, 6), None, None, 0);
    let banner = chars("Hecto Editor -- version(0.1.0)");
    assert_eq!(string(&e.draw_welcome_message(&banner)), "~Hecto Edi");
    let rows = e.draw_rows(&banner);
    assert_eq!(string(&rows[2]), "~Hecto Edi");
    assert_eq!(string(&rows[0]), "~");
}

#[test]
fn one_empty_row_is_not_an_empty_document() {
    let e = Editor::default(term(20, 6), Some(chars("a")), Some(chars("\n")), 0);
    let rows = e.draw_rows(&chars("banner"));
    assert_eq!(string(&rows[0]), "");
    assert_eq!(string(&rows[1]), "~");
    assert_eq!(string(&rows[2]), "~");
}

#[test]
fn rows_follow_horizontal_offset() {
    let mut e = Editor::default(term(4, 3), Some(chars("a")), Some(chars("abcdefgh\nxy")), 0);
    for _ in 0..6 {
        e.process_keypress(KeyPress { code: Key::Right, ctrl: false });
    }
    let frame = e.refresh_screen(&chars("b"), 0);
    assert_eq!(string(&frame.rows[0]), "defg");
    assert_eq!(string(&frame.rows[1]), "");
    assert_eq!(string(&frame.rows[2]), "~");
    assert_eq!((frame.cursor.x, frame.cursor.y), (3, 0));
}

#[test]
fn status_line_truncates_long_name() {
    let e = Editor::default(
        term(60, 5),
        Some(chars("a_really_long_file_name_here.txt")),
        Some(chars("x\ny\n")),
        0,
    );
    let s = string(&e.draw_status_bar());
    assert_eq!(s.chars().count(), 60);
    assert!(s.starts_with("a_really_long_file_n - 2 lines "));
    assert!(s.ends_with(" 1/2"));
    let narrow = Editor::default(term(12, 5), Some(chars("f.txt")), Some(chars("x")), 0);
    assert_eq!(string(&narrow.draw_status_bar()), "f.txt - 1 li");
}

#[test]
fn message_expires_after_five_seconds() {
    let e = Editor::default(term(10, 5), None, None, 1000);
    assert_eq!(string(&e.draw_message_bar(1000)), "HELP: Ctrl");
    assert_eq!(string(&e.draw_message_bar(5999)), "HELP: Ctrl");
    assert_eq!(string(&e.draw_message_bar(6000)), "");
    assert_eq!(string(&e.draw_message_bar(500)), "HELP: Ctrl");
}

#[test]
fn decimal_numerals() {
    assert_eq!(string(&decimal_chars(0)), "0");
    assert_eq!(string(&decimal_chars(7)), "7");
    assert_eq!(string(&decimal_chars(1024)), "1024");
    assert_eq!(string(&decimal_chars(usize::MAX)), usize::MAX.to_string());
}
