use vstd::prelude::*;
use crate::document::Document;
use crate::editor::Editor;
use crate::position::Position;
use crate::row::{Row, clipped};
use crate::status::{StatusMessage, shows};
use crate::text::{chars_of, decimal, decimal_chars, prefix, push_all, push_spaces, spaces, truncate_chars};

verus! {

/// The file name shown for a document without one.
pub const NO_NAME: &'static str = "[No Name]";

/// The most characters of a file name that the status line shows.
pub const NAME_WIDTH: usize = 20;

/// `a + b`, or `usize::MAX` where that is more.
pub open spec fn sat_add(a: int, b: int) -> int {
    if a + b > usize::MAX { usize::MAX as int } else { a + b }
}

/// `a - b`, or 0 where that is less.
pub open spec fn sat_sub(a: int, b: int) -> int {
    if a > b { a - b } else { 0 }
}

/// The part of `line` inside a window that starts at column `off_x` and is
/// `width` columns wide.
pub open spec fn row_text(line: Seq<char>, off_x: int, width: int) -> Seq<char> {
    clipped(line, off_x, sat_add(off_x, width))
}

/// The welcome line: a `~`, then spaces that center `banner`, then `banner`,
/// cut to `width`.
pub open spec fn welcome_text(banner: Seq<char>, width: int) -> Seq<char> {
    prefix(seq!['~'] + spaces(sat_sub(sat_sub(width, banner.len() as int) / 2, 1) as nat) + banner, width)
}

/// Screen row `t` of the text area: the document row it shows; on an empty
/// document the welcome line at a third of the height; else a `~`.
pub open spec fn body_text(lines: Seq<Seq<char>>, off: Position, width: int, height: int, t: int, banner: Seq<char>) -> Seq<char> {
    if off.y + t < lines.len() {
        row_text(lines[off.y + t], off.x as int, width)
    } else if lines.len() == 0 && t == height / 3 {
        welcome_text(banner, width)
    } else {
        seq!['~']
    }
}

/// The file name as the status line shows it.
pub open spec fn name_text(name: Option<Seq<char>>) -> Seq<char> {
    match name {
        Some(n) => prefix(n, NAME_WIDTH as int),
        None => NO_NAME@,
    }
}

/// The status line: name and line count on the left, `line/total` on the
/// right, spaces between them, the whole cut to `width`.
pub open spec fn status_text(name: Option<Seq<char>>, count: nat, cursor_y: nat, width: int) -> Seq<char> {
    let left = name_text(name) + " - "@ + decimal(count) + " lines"@;
    let right = decimal(sat_add(cursor_y as int, 1) as nat) + "/"@ + decimal(count);
    let fill = if width > left.len() + right.len() { width - left.len() - right.len() } else { 0 };
    prefix(left + spaces(fill as nat) + right, width)
}

/// The message line: the message cut to `width` while it shows, else blank.
pub open spec fn message_text(m: StatusMessage, now: u64, width: int) -> Seq<char> {
    if shows(m.time, now) {
        prefix(m.text@, width)
    } else {
        Seq::<char>::empty()
    }
}

/// A full screen: the text area, the status line, the message line, and
/// where the cursor is drawn.
#[derive(Debug)]
pub struct Frame {
    pub rows: Vec<Vec<char>>,
    pub status: Vec<char>,
    pub message: Vec<char>,
    pub cursor: Position,
}

impl Editor {
    /// The width of the text area.
    pub open spec fn width(&self) -> int {
        self.spec_terminal().spec_size().columns as int
    }

    /// The part of `row` inside the window.
    pub fn draw_row(&self, row: &Row) -> (r: Vec<char>)
        ensures
            r@ == row_text(row@, self.spec_offset().x as int, self.width()),
    {
        let width = self.terminal().size().columns as usize;
        let start = self.offset().x;
        let end = start.saturating_add(width);
        row.slice_for_display(start, end)
    }

    /// The welcome line for `banner`.
    pub fn draw_welcome_message(&self, banner: &Vec<char>) -> (r: Vec<char>)
        ensures
            r@ == welcome_text(banner@, self.width()),
    {
        let width = self.terminal().size().columns as usize;
        let padding = width.saturating_sub(banner.len()) / 2;
        let mut line: Vec<char> = Vec::new();
        line.push('~');
        push_spaces(&mut line, padding.saturating_sub(1));
        push_all(&mut line, banner);
        truncate_chars(&mut line, width);
        assert(seq!['~'] =~= Seq::<char>::empty().push('~'));
        line
    }

    /// The rows of the text area, top to bottom.
    pub fn draw_rows(&self, banner: &Vec<char>) -> (r: Vec<Vec<char>>)
        ensures
            r@.len() == self.page(),
            forall|t: int| 0 <= t < r@.len() ==> (#[trigger] r@[t])@ == body_text(self.lines(),
                self.spec_offset(), self.width(), self.page(), t, banner@),
    {
        let height = self.terminal().size().rows as usize;
        let document: &Document = self.document();
        let off = self.offset();
        let n = document.len();
        let is_empty = document.is_empty();
        let mut out: Vec<Vec<char>> = Vec::new();
        let mut t: usize = 0;
        while t < height
            invariant
                t <= height,
                height == self.page(),
                *document == self.spec_document(),
                off == self.spec_offset(),
                n == self.lines().len(),
                is_empty == (n == 0),
                out@.len() == t,
                forall|k: int| 0 <= k < t ==> (#[trigger] out@[k])@ == body_text(self.lines(),
                    self.spec_offset(), self.width(), self.page(), k, banner@),
            decreases height - t,
        {
            let line = if off.y < n && t < n - off.y {
                match document.row(off.y + t) {
                    Some(row) => self.draw_row(row),
                    None => Vec::new(),
                }
            } else if is_empty && t == height / 3 {
                self.draw_welcome_message(banner)
            } else {
                let mut v: Vec<char> = Vec::new();
                v.push('~');
                assert(v@ =~= seq!['~']);
                v
            };
            out.push(line);
            t = t + 1;
        }
        out
    }

    /// The status line.
    pub fn draw_status_bar(&self) -> (r: Vec<char>)
        ensures
            r@ == status_text(self.spec_document().name(), self.lines().len(),
                self.spec_cursor().y as nat, self.width()),
    {
        let width = self.terminal().size().columns as usize;
        let document = self.document();
        let count = document.len();
        let mut status = match document.file_name() {
            Some(name) => {
                let mut n = name;
                truncate_chars(&mut n, NAME_WIDTH);
                n
            },
            None => chars_of(NO_NAME),
        };
        push_all(&mut status, &chars_of(" - "));
        push_all(&mut status, &decimal_chars(count));
        push_all(&mut status, &chars_of(" lines"));
        let mut indicator = decimal_chars(self.cursor_position().y.saturating_add(1));
        push_all(&mut indicator, &chars_of("/"));
        push_all(&mut indicator, &decimal_chars(count));
        let len = status.len() as u128 + indicator.len() as u128;
        if (width as u128) > len {
            let fill = width - status.len() - indicator.len();
            push_spaces(&mut status, fill);
        }
        push_all(&mut status, &indicator);
        truncate_chars(&mut status, width);
        status
    }

    /// The message line at time `now`.
    pub fn draw_message_bar(&self, now: u64) -> (r: Vec<char>)
        ensures
            r@ == message_text(self.spec_status(), now, self.width()),
    {
        let width = self.terminal().size().columns as usize;
        let message = self.status_message();
        if message.is_visible(now) {
            let mut text = message.text.clone();
            truncate_chars(&mut text, width);
            text
        } else {
            Vec::new()
        }
    }

    /// The whole screen at time `now`, with `banner` as the welcome text.
    /// The cursor is drawn at its place relative to the window.
    pub fn refresh_screen(&self, banner: &Vec<char>, now: u64) -> (r: Frame)
        ensures
            r.rows@.len() == self.page(),
            forall|t: int| 0 <= t < r.rows@.len() ==> (#[trigger] r.rows@[t])@ == body_text(self.lines(),
                self.spec_offset(), self.width(), self.page(), t, banner@),
            r.status@ == status_text(self.spec_document().name(), self.lines().len(),
                self.spec_cursor().y as nat, self.width()),
            r.message@ == message_text(self.spec_status(), now, self.width()),
            r.cursor.x as int == sat_sub(self.spec_cursor().x as int, self.spec_offset().x as int),
            r.cursor.y as int == sat_sub(self.spec_cursor().y as int, self.spec_offset().y as int),
    {
        let cursor = self.cursor_position();
        let off = self.offset();
        Frame {
            rows: self.draw_rows(banner),
            status: self.draw_status_bar(),
            message: self.draw_message_bar(now),
            cursor: Position { x: cursor.x.saturating_sub(off.x), y: cursor.y.saturating_sub(off.y) },
        }
    }
}

} // verus!
