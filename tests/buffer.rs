use hecto::document::Document;
use hecto::position::Position;
use hecto::row::Row;

fn chars(s: &str) -> Vec<char> {
    s.chars().collect()
}

fn doc(lines: &[&str]) -> Document {
    Document::from_lines(chars("notes.txt"), lines.iter().map(|l| chars(l)).collect())
}

fn text(d: &Document) -> Vec<String> {
    d.to_lines().into_iter().map(|l| l.into_iter().collect()).collect()
}

fn total(d: &Document) -> usize {
    d.to_lines().iter().map(|l| l.len()).sum()
}

#[test]
fn row_insert_then_delete_restores() {
    for col in 0..=5 {
        let mut row = Row::from_chars(chars("héllo"));
        row.insert_char(col, 'ß');
        assert_eq!(row.len(), 6);
        assert!(row.delete_char(col));
        assert_eq!(row.to_chars(), chars("héllo"));
    }
}

#[test]
fn row_insert_char_places_before_column() {
    let mut row = Row::from_chars(chars("ac"));
    row.insert_char(1, 'b');
    assert_eq!(row.to_chars(), chars("abc"));
    row.insert_char(3, 'd');
    assert_eq!(row.to_chars(), chars("abcd"));
}

#[test]
fn row_delete_char_past_end_is_noop() {
    let mut row = Row::from_chars(chars("ab"));
    assert!(!row.delete_char(2));
    assert!(!row.delete_char(7));
    assert_eq!(row.to_chars(), chars("ab"));
    assert!(row.delete_char(0));
    assert_eq!(row.to_chars(), chars("b"));
}

#[test]
fn row_slice_for_display_clips() {
    let row = Row::from_chars(chars("abcdef"));
    assert_eq!(row.slice_for_display(1, 4), chars("bcd"));
    assert_eq!(row.slice_for_display(4, 100), chars("ef"));
    assert_eq!(row.slice_for_display(10, 20), chars(""));
    assert_eq!(row.slice_for_display(3, 2), chars(""));
    assert_eq!(row.slice_for_display(0, usize::MAX), chars("abcdef"));
}

#[test]
fn row_split_and_join() {
    let row = Row::from_chars(chars("hello"));
    let (mut a, b) = row.split_at(2);
    assert_eq!(a.to_chars(), chars("he"));
    assert_eq!(b.to_chars(), chars("llo"));
    a.join(b);
    assert_eq!(a.to_chars(), chars("hello"));
    let (c, d) = Row::from_chars(chars("xy")).split_at(2);
    assert_eq!(c.to_chars(), chars("xy"));
    assert!(d.is_empty());
}

#[test]
fn empty_document_has_no_rows() {
    let d = Document::default();
    assert!(d.is_empty());
    assert_eq!(d.len(), 0);
    assert!(d.row(0).is_none());
    assert!(d.file_name().is_none());
    let one = doc(&[""]);
    assert!(!one.is_empty());
    assert_eq!(one.len(), 1);
    assert_eq!(one.row_len(0), 0);
}

#[test]
fn document_row_lookup() {
    let d = doc(&["ab", "cde"]);
    assert_eq!(d.row(1).map(|r| r.to_chars()), Some(chars("cde")));
    assert!(d.row(2).is_none());
    assert_eq!(d.row_len(1), 3);
    assert_eq!(d.row_len(5), 0);
    assert_eq!(d.file_name(), Some(chars("notes.txt")));
}

#[test]
fn document_insert_past_last_row_appends() {
    let mut d = doc(&["ab"]);
    d.insert(&Position { x: 0, y: 1 }, 'z');
    assert_eq!(text(&d), vec!["ab", "z"]);
    d.insert(&Position { x: 1, y: 0 }, 'q');
    assert_eq!(text(&d), vec!["aqb", "z"]);
    let mut e = Document::default();
    e.insert(&Position { x: 0, y: 0 }, 'a');
    assert_eq!(text(&e), vec!["a"]);
}

#[test]
fn document_delete_cases() {
    let mut d = doc(&["ab", "cd"]);
    d.delete(&Position { x: 0, y: 0 });
    assert_eq!(text(&d), vec!["b", "cd"]);
    d.delete(&Position { x: 1, y: 0 });
    assert_eq!(text(&d), vec!["bcd"]);
    d.delete(&Position { x: 3, y: 0 });
    assert_eq!(text(&d), vec!["bcd"]);
    d.delete(&Position { x: 0, y: 1 });
    assert_eq!(text(&d), vec!["bcd"]);
}

#[test]
fn newline_then_delete_restores() {
    for x in 0..=4 {
        let mut d = doc(&["one", "four", "x"]);
        let pos = Position { x, y: 1 };
        d.insert_newline(&pos);
        assert_eq!(d.len(), 4);
        d.delete(&pos);
        assert_eq!(text(&d), vec!["one", "four", "x"]);
        assert_eq!(d.len(), 3);
    }
}

#[test]
fn insert_newline_splits_row() {
    let mut d = doc(&["hello"]);
    d.insert_newline(&Position { x: 2, y: 0 });
    assert_eq!(text(&d), vec!["he", "llo"]);
    d.insert_newline(&Position { x: 0, y: 2 });
    assert_eq!(text(&d), vec!["he", "llo", ""]);
}

#[test]
fn joining_with_previous_line_keeps_characters() {
    let mut d = doc(&["ab", "cde", "f"]);
    let before = total(&d);
    d.delete(&Position { x: 2, y: 0 });
    assert_eq!(d.len(), 2);
    assert_eq!(total(&d), before);
    assert_eq!(text(&d), vec!["abcde", "f"]);
}

#[test]
fn set_file_name_binds() {
    let mut d = Document::default();
    d.set_file_name(chars("a.txt"));
    assert_eq!(d.file_name(), Some(chars("a.txt")));
}

fn opened(t: &str) -> Vec<String> {
    text(&Document::open(chars("f"), &chars(t)))
}

#[test]
fn open_splits_at_line_breaks() {
    assert_eq!(opened(""), Vec::<String>::new());
    assert_eq!(opened("\n"), vec![""]);
    assert_eq!(opened("abc"), vec!["abc"]);
    assert_eq!(opened("abc\n"), vec!["abc"]);
    assert_eq!(opened("a\n\nb"), vec!["a", "", "b"]);
    assert_eq!(opened("a\nb\n\n"), vec!["a", "b", ""]);
    assert_eq!(Document::open(chars("f"), &chars("x")).file_name(), Some(chars("f")));
}

#[test]
fn to_text_ends_each_row_with_line_break() {
    let d = doc(&["ab", "", "c"]);
    assert_eq!(d.to_text(), chars("ab\n\nc\n"));
    assert_eq!(Document::default().to_text(), chars(""));
    for t in ["", "\n", "abc\n", "a\n\nb\n", "x\ny\n\n"] {
        assert_eq!(Document::open(chars("f"), &chars(t)).to_text(), chars(t));
    }
}
