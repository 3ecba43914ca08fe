use vstd::prelude::*;
use crate::document::{Document, line_len, deleted, broken, inserted, total_chars, lemma_join_with_previous, lines_of};
use crate::row::is_line_break;
use crate::text::{chars_of, push_all};
use crate::position::Position;
use crate::status::StatusMessage;
use crate::terminal::Terminal;

verus! {

/// The status message of a new session.
pub const HELP: &'static str = "HELP: Ctrl+s == save | Ctrl+q = quit";

/// The status message where the file could not be read; its name follows.
pub const OPEN_FAILED: &'static str = "ERR: Could not open file: ";

/// The status message where no file name was given for a save.
pub const SAVE_ABORTED: &'static str = "Save aborted!";

/// The status message after a successful save.
pub const SAVED: &'static str = "File saved successfully";

/// The status message after a failed save.
pub const SAVE_FAILED: &'static str = "Error writing file!";

/// The prompt for a file name.
pub const SAVE_AS: &'static str = "Save as: ";

/// A key, as the editor tells keys apart.
#[derive(Clone, Copy, Debug, PartialEq, Eq, Structural)]
pub enum Key {
    Up,
    Down,
    Left,
    Right,
    PageUp,
    PageDown,
    Home,
    End,
    Delete,
    Backspace,
    Enter,
    Esc,
    Char(char),
    Other,
}

/// A key press: the key, and whether Control alone was held with it.
#[derive(Clone, Copy, Debug, PartialEq, Eq, Structural)]
pub struct KeyPress {
    pub code: Key,
    pub ctrl: bool,
}

/// The cursor after `key` from `(x, y)` in `lines`, before the column is
/// clamped; `page` is the height of the text area.
pub open spec fn stepped(lines: Seq<Seq<char>>, x: int, y: int, key: Key, page: int) -> (int, int) {
    let h = lines.len() as int;
    match key {
        Key::Up => (x, if y > 0 { y - 1 } else { 0 }),
        Key::Down => (x, if y < h { y + 1 } else { y }),
        Key::Left => if x > 0 {
            (x - 1, y)
        } else if y > 0 {
            (line_len(lines, y - 1) as int, y - 1)
        } else {
            (x, y)
        },
        Key::Right => if x < line_len(lines, y) {
            (x + 1, y)
        } else if y < h {
            (0, y + 1)
        } else {
            (x, y)
        },
        Key::PageUp => (x, if y > page { y - page } else { 0 }),
        Key::PageDown => (x, if y + page < h { y + page } else { h }),
        Key::Home => (0, y),
        Key::End => (line_len(lines, y) as int, y),
        _ => (x, y),
    }
}

/// The cursor after `key` from `(x, y)`: the step, then the column clamped
/// to the length of the row it lands on.
pub open spec fn moved(lines: Seq<Seq<char>>, x: int, y: int, key: Key, page: int) -> (int, int) {
    let s = stepped(lines, x, y, key, page);
    let w = line_len(lines, s.1) as int;
    (if s.0 > w { w } else { s.0 }, s.1)
}

/// The new start of the window along one axis: moved just far enough that
/// `c` lies in `[start, start + extent)`. (With no extent at all the start
/// goes just past `c`, as far as a `usize` reaches.)
pub open spec fn scrolled(start: int, c: int, extent: int) -> int {
    if c < start {
        c
    } else if c >= start + extent {
        if c - extent + 1 > usize::MAX { usize::MAX as int } else { c - extent + 1 }
    } else {
        start
    }
}

/// Moving left from the start of row `y > 0` lands at the end of row
/// `y - 1`; at `(0, 0)` the cursor stays.
pub proof fn lemma_left_at_line_start(lines: Seq<Seq<char>>, y: int, page: int)
    requires
        0 <= y <= lines.len(),
    ensures
        y > 0 ==> moved(lines, 0, y, Key::Left, page) == (line_len(lines, y - 1) as int, y - 1),
        y == 0 ==> moved(lines, 0, y, Key::Left, page) == (0int, 0int),
{
}

/// A backspace at the start of row `y > 0` joins row `y` onto row `y - 1`:
/// the text loses exactly one row and keeps every character, and the cursor
/// rests where the two rows meet.
pub proof fn lemma_backspace_at_line_start(lines: Seq<Seq<char>>, y: int, page: int)
    requires
        0 < y < lines.len(),
        lines[y - 1].len() + lines[y].len() <= usize::MAX,
    ensures
        edited(lines, 0, y, Key::Backspace, page).0.len() == lines.len() - 1,
        total_chars(edited(lines, 0, y, Key::Backspace, page).0) == total_chars(lines),
        edited(lines, 0, y, Key::Backspace, page).1 == lines[y - 1].len(),
        edited(lines, 0, y, Key::Backspace, page).2 == y - 1,
{
    lemma_join_with_previous(lines, y);
}

/// After scrolling, a cursor coordinate lies inside the window along each
/// axis of positive extent.
pub proof fn lemma_scroll_shows_cursor(start: int, c: int, extent: int)
    requires
        0 <= c <= usize::MAX,
        extent > 0,
    ensures
        scrolled(start, c, extent) <= c < scrolled(start, c, extent) + extent,
{
}

/// Whether a delete at row `y` can join row `y + 1` onto it within the
/// length a row can have.
pub open spec fn join_fits(lines: Seq<Seq<char>>, y: int) -> bool {
    0 <= y && y + 1 < lines.len() ==> lines[y].len() + lines[y + 1].len() <= usize::MAX
}

/// Whether a character can be typed at row `y` within the sizes a document
/// can have.
pub open spec fn insert_fits(lines: Seq<Seq<char>>, y: int) -> bool {
    lines.len() < usize::MAX && line_len(lines, y) < usize::MAX
}

/// The text after a delete at `(x, y)`, where the join fits.
pub open spec fn deleted_if_fits(lines: Seq<Seq<char>>, x: int, y: int) -> Seq<Seq<char>> {
    if join_fits(lines, y) { deleted(lines, x, y) } else { lines }
}

/// The text and the cursor after an editing key at `(x, y)`: Delete deletes
/// at the cursor; Backspace, away from `(0, 0)`, moves left and deletes
/// there; Enter breaks the line and moves down; a character other than a
/// line break is typed and the cursor moves right; the moving keys move the
/// cursor. Any other key changes nothing.
pub open spec fn edited(lines: Seq<Seq<char>>, x: int, y: int, key: Key, page: int) -> (Seq<Seq<char>>, int, int) {
    match key {
        Key::Delete => (deleted_if_fits(lines, x, y), x, y),
        Key::Backspace => if x > 0 || y > 0 {
            let m = moved(lines, x, y, Key::Left, page);
            (deleted_if_fits(lines, m.0, m.1), m.0, m.1)
        } else {
            (lines, x, y)
        },
        Key::Enter => if lines.len() < usize::MAX {
            let l = broken(lines, x, y);
            let m = moved(l, x, y, Key::Down, page);
            (l, m.0, m.1)
        } else {
            (lines, x, y)
        },
        Key::Char(c) => if !is_line_break(c) && insert_fits(lines, y) {
            let l = inserted(lines, x, y, c);
            let m = moved(l, x, y, Key::Right, page);
            (l, m.0, m.1)
        } else {
            (lines, x, y)
        },
        Key::Esc => (lines, x, y),
        Key::Other => (lines, x, y),
        _ => {
            let m = moved(lines, x, y, key, page);
            (lines, m.0, m.1)
        },
    }
}

/// Control with `q` asks to quit.
pub open spec fn is_quit(k: KeyPress) -> bool {
    k.ctrl && k.code == Key::Char('q')
}

/// Control with `s` asks to save.
pub open spec fn is_save(k: KeyPress) -> bool {
    k.ctrl && k.code == Key::Char('s')
}

/// What a key press asks of the caller beyond the editor's own state.
#[derive(Clone, Copy, Debug, PartialEq, Eq, Structural)]
pub enum Request {
    Nothing,
    Save,
}

/// How the save of a document goes on.
#[derive(Clone, Copy, Debug, PartialEq, Eq, Structural)]
pub enum SaveStep {
    /// No file name is bound: one must be asked for first.
    AskName,
    /// The document can be written to its file.
    Write,
}

/// One editing session: the document, the cursor, the window onto the
/// document, and the status message.
#[derive(Debug)]
pub struct Editor {
    should_quit: bool,
    terminal: Terminal,
    cursor_position: Position,
    offset: Position,
    document: Document,
    status_message: StatusMessage,
}

impl Editor {
    /// Whether a quit was asked for.
    pub closed spec fn spec_should_quit(&self) -> bool {
        self.should_quit
    }

    /// The terminal the session draws on.
    pub closed spec fn spec_terminal(&self) -> Terminal {
        self.terminal
    }

    /// The cursor, in document coordinates.
    pub closed spec fn spec_cursor(&self) -> Position {
        self.cursor_position
    }

    /// The top-left document coordinate of the window.
    pub closed spec fn spec_offset(&self) -> Position {
        self.offset
    }

    /// The document.
    pub closed spec fn spec_document(&self) -> Document {
        self.document
    }

    /// The status message.
    pub closed spec fn spec_status(&self) -> StatusMessage {
        self.status_message
    }

    /// The text of the document.
    pub open spec fn lines(&self) -> Seq<Seq<char>> {
        self.spec_document().lines()
    }

    /// The height of the text area.
    pub open spec fn page(&self) -> int {
        self.spec_terminal().spec_size().rows as int
    }

    /// Where `key` moves the cursor.
    pub open spec fn moved_by(&self, key: Key) -> (int, int) {
        moved(self.lines(), self.spec_cursor().x as int, self.spec_cursor().y as int, key, self.page())
    }

    /// The text and the cursor after the editing key `key`.
    pub open spec fn edited_by(&self, key: Key) -> (Seq<Seq<char>>, int, int) {
        edited(self.lines(), self.spec_cursor().x as int, self.spec_cursor().y as int, key, self.page())
    }

    /// The document holds no line break and the cursor rests at a character
    /// slot of it: on a row, or just past the last row at column 0.
    pub open spec fn wf(&self) -> bool {
        &&& self.spec_document().wf()
        &&& self.spec_cursor().y <= self.lines().len()
        &&& self.spec_cursor().x <= line_len(self.lines(), self.spec_cursor().y as int)
    }

    /// Whether a quit was asked for.
    pub fn should_quit(&self) -> (r: bool)
        ensures
            r == self.spec_should_quit(),
    {
        self.should_quit
    }

    /// The terminal the session draws on.
    pub fn terminal(&self) -> (r: &Terminal)
        ensures
            *r == self.spec_terminal(),
    {
        &self.terminal
    }

    /// The cursor, in document coordinates.
    pub fn cursor_position(&self) -> (r: Position)
        ensures
            r == self.spec_cursor(),
    {
        self.cursor_position
    }

    /// The top-left document coordinate of the window.
    pub fn offset(&self) -> (r: Position)
        ensures
            r == self.spec_offset(),
    {
        self.offset
    }

    /// The document.
    pub fn document(&self) -> (r: &Document)
        ensures
            *r == self.spec_document(),
    {
        &self.document
    }

    /// The status message.
    pub fn status_message(&self) -> (r: &StatusMessage)
        ensures
            *r == self.spec_status(),
    {
        &self.status_message
    }

    /// Moves the cursor for `key`, against the current shape of the
    /// document; the column is then clamped to the row it lands on.
    pub fn move_cursor_by_key(&mut self, key: Key)
        requires
            old(self).wf(),
        ensures
            final(self).wf(),
            final(self).spec_cursor().x == old(self).moved_by(key).0,
            final(self).spec_cursor().y == old(self).moved_by(key).1,
            final(self).spec_document() == old(self).spec_document(),
            final(self).spec_offset() == old(self).spec_offset(),
            final(self).spec_terminal() == old(self).spec_terminal(),
            final(self).spec_status() == old(self).spec_status(),
            final(self).spec_should_quit() == old(self).spec_should_quit(),
    {
        let terminal_height = self.terminal.size().rows as usize;
        let mut x = self.cursor_position.x;
        let mut y = self.cursor_position.y;
        let height = self.document.len();
        let width = self.document.row_len(y);
        match key {
            Key::Up => {
                y = if y > 0 { y - 1 } else { 0 };
            },
            Key::Down => {
                if y < height {
                    y = y + 1;
                }
            },
            Key::Left => {
                if x > 0 {
                    x = x - 1;
                } else if y > 0 {
                    y = y - 1;
                    x = self.document.row_len(y);
                }
            },
            Key::Right => {
                if x < width {
                    x = x + 1;
                } else if y < height {
                    y = y + 1;
                    x = 0;
                }
            },
            Key::PageUp => {
                y = if y > terminal_height { y - terminal_height } else { 0 };
            },
            Key::PageDown => {
                y = if terminal_height < height && y < height - terminal_height {
                    y + terminal_height
                } else {
                    height
                };
            },
            Key::Home => {
                x = 0;
            },
            Key::End => {
                x = width;
            },
            _ => {},
        }
        let new_width = self.document.row_len(y);
        if x > new_width {
            x = new_width;
        }
        self.cursor_position = Position { x, y };
    }

    /// Moves the cursor for a key press; modifiers play no part.
    pub fn move_cursor(&mut self, pressed_key: KeyPress)
        requires
            old(self).wf(),
        ensures
            final(self).wf(),
            final(self).spec_cursor().x == old(self).moved_by(pressed_key.code).0,
            final(self).spec_cursor().y == old(self).moved_by(pressed_key.code).1,
            final(self).spec_document() == old(self).spec_document(),
            final(self).spec_offset() == old(self).spec_offset(),
            final(self).spec_terminal() == old(self).spec_terminal(),
            final(self).spec_status() == old(self).spec_status(),
            final(self).spec_should_quit() == old(self).spec_should_quit(),
    {
        self.move_cursor_by_key(pressed_key.code);
    }

    /// Moves the window just far enough that the cursor is inside it.
    pub fn scroll(&mut self)
        ensures
            final(self).spec_offset().y as int == scrolled(old(self).spec_offset().y as int, old(self).spec_cursor().y as int, old(self).page()),
            final(self).spec_offset().x as int == scrolled(old(self).spec_offset().x as int, old(self).spec_cursor().x as int, old(self).spec_terminal().spec_size().columns as int),
            old(self).page() > 0 ==> final(self).spec_offset().y <= final(self).spec_cursor().y < final(self).spec_offset().y + old(self).page(),
            old(self).spec_terminal().spec_size().columns > 0 ==> final(self).spec_offset().x <= final(self).spec_cursor().x < final(self).spec_offset().x + old(self).spec_terminal().spec_size().columns,
            final(self).spec_cursor() == old(self).spec_cursor(),
            final(self).spec_document() == old(self).spec_document(),
            final(self).spec_terminal() == old(self).spec_terminal(),
            final(self).spec_status() == old(self).spec_status(),
            final(self).spec_should_quit() == old(self).spec_should_quit(),
    {
        let x = self.cursor_position.x;
        let y = self.cursor_position.y;
        let width = self.terminal.size().columns as usize;
        let height = self.terminal.size().rows as usize;
        if y < self.offset.y {
            self.offset.y = y;
        } else if y - self.offset.y >= height {
            self.offset.y = (y - height).saturating_add(1);
        }
        if x < self.offset.x {
            self.offset.x = x;
        } else if x - self.offset.x >= width {
            self.offset.x = (x - width).saturating_add(1);
        }
    }
    /// A session on `terminal`. Without a file name the document is empty.
    /// With one, `opened` holds the text read from that file, or `None`
    /// where it could not be read: then the document is empty too and the
    /// status message says so.
    pub fn default(terminal: Terminal, file_name: Option<Vec<char>>, opened: Option<Vec<char>>, now: u64) -> (r: Editor)
        ensures
            r.wf(),
            !r.spec_should_quit(),
            r.spec_terminal() == terminal,
            r.spec_cursor() == (Position { x: 0, y: 0 }),
            r.spec_offset() == (Position { x: 0, y: 0 }),
            r.spec_status().time == now,
            file_name is None ==> r.lines().len() == 0 && r.spec_document().name() is None
                && r.spec_status().text@ == HELP@,
            file_name matches Some(n) ==> (opened matches Some(t) ==> lines_of(t@, r.lines())
                && r.spec_document().name() == Some(n@) && r.spec_status().text@ == HELP@),
            file_name matches Some(n) ==> (opened is None ==> r.lines().len() == 0
                && r.spec_document().name() is None && r.spec_status().text@ == OPEN_FAILED@ + n@),
    {
        let (document, text) = match file_name {
            None => (Document::default(), chars_of(HELP)),
            Some(name) => match opened {
                Some(contents) => (Document::open(name, &contents), chars_of(HELP)),
                None => {
                    let mut t = chars_of(OPEN_FAILED);
                    push_all(&mut t, &name);
                    (Document::default(), t)
                },
            },
        };
        Editor {
            should_quit: false,
            terminal,
            cursor_position: Position::default(),
            offset: Position::default(),
            document,
            status_message: StatusMessage::new(text, now),
        }
    }

    /// Handles one key press: Control-q asks to quit, Control-s asks the
    /// caller to save, any other key edits or moves as `edited` says. The
    /// window then follows the cursor.
    pub fn process_keypress(&mut self, pressed_key: KeyPress) -> (r: Request)
        requires
            old(self).wf(),
        ensures
            final(self).wf(),
            r == (if is_save(pressed_key) { Request::Save } else { Request::Nothing }),
            final(self).spec_should_quit() == (old(self).spec_should_quit() || is_quit(pressed_key)),
            is_quit(pressed_key) || is_save(pressed_key) ==> final(self).lines() == old(self).lines()
                && final(self).spec_cursor() == old(self).spec_cursor(),
            !is_quit(pressed_key) && !is_save(pressed_key) ==> final(self).lines() == old(self).edited_by(pressed_key.code).0
                && final(self).spec_cursor().x == old(self).edited_by(pressed_key.code).1
                && final(self).spec_cursor().y == old(self).edited_by(pressed_key.code).2,
            final(self).spec_offset().y as int == scrolled(old(self).spec_offset().y as int, final(self).spec_cursor().y as int, old(self).page()),
            final(self).spec_offset().x as int == scrolled(old(self).spec_offset().x as int, final(self).spec_cursor().x as int, old(self).spec_terminal().spec_size().columns as int),
            old(self).page() > 0 ==> final(self).spec_offset().y <= final(self).spec_cursor().y < final(self).spec_offset().y + old(self).page(),
            old(self).spec_terminal().spec_size().columns > 0 ==> final(self).spec_offset().x <= final(self).spec_cursor().x < final(self).spec_offset().x + old(self).spec_terminal().spec_size().columns,
            final(self).spec_document().name() == old(self).spec_document().name(),
            final(self).spec_terminal() == old(self).spec_terminal(),
            final(self).spec_status() == old(self).spec_status(),
    {
        let mut request = Request::Nothing;
        if pressed_key.ctrl && pressed_key.code == Key::Char('q') {
            self.should_quit = true;
        } else if pressed_key.ctrl && pressed_key.code == Key::Char('s') {
            request = Request::Save;
        } else {
            match pressed_key.code {
                Key::Delete => {
                    let pos = self.cursor_position;
                    self.delete_at(&pos);
                },
                Key::Backspace => {
                    if self.cursor_position.x > 0 || self.cursor_position.y > 0 {
                        self.move_cursor_by_key(Key::Left);
                        let pos = self.cursor_position;
                        self.delete_at(&pos);
                    }
                },
                Key::Enter => {
                    if self.document.len() < usize::MAX {
                        let pos = self.cursor_position;
                        self.document.insert_newline(&pos);
                        self.move_cursor_by_key(Key::Down);
                    }
                },
                Key::Char(c) => {
                    let pos = self.cursor_position;
                    if c != '\n' && self.document.len() < usize::MAX
                        && self.document.row_len(pos.y) < usize::MAX {
                        self.document.insert(&pos, c);
                        self.move_cursor_by_key(Key::Right);
                    }
                },
                Key::Esc => {},
                Key::Other => {},
                _ => {
                    self.move_cursor(pressed_key);
                },
            }
        }
        self.scroll();
        request
    }

    /// Deletes at `pos`, where the cursor rests, unless a join would give a
    /// row longer than a row can be.
    fn delete_at(&mut self, pos: &Position)
        requires
            old(self).wf(),
            *pos == old(self).spec_cursor(),
        ensures
            final(self).wf(),
            final(self).lines() == deleted_if_fits(old(self).lines(), pos.x as int, pos.y as int),
            final(self).spec_cursor() == old(self).spec_cursor(),
            final(self).spec_offset() == old(self).spec_offset(),
            final(self).spec_document().name() == old(self).spec_document().name(),
            final(self).spec_terminal() == old(self).spec_terminal(),
            final(self).spec_status() == old(self).spec_status(),
            final(self).spec_should_quit() == old(self).spec_should_quit(),
    {
        let y = pos.y;
        let len = self.document.len();
        if y < len && y + 1 < len {
            let a = self.document.row_len(y);
            let b = self.document.row_len(y + 1);
            if a > usize::MAX - b {
                return;
            }
        }
        self.document.delete(pos);
    }

    /// The first step of a save: a file name must be asked for unless one
    /// is bound.
    pub fn save(&self) -> (r: SaveStep)
        ensures
            r == (if self.spec_document().name() is None { SaveStep::AskName } else { SaveStep::Write }),
    {
        if self.document.file_name().is_none() {
            SaveStep::AskName
        } else {
            SaveStep::Write
        }
    }

    /// Shows `text` as the status message from `now` on.
    pub fn set_status(&mut self, text: Vec<char>, now: u64)
        ensures
            final(self).spec_status().text@ == text@,
            final(self).spec_status().time == now,
            final(self).lines() == old(self).lines(),
            final(self).spec_document() == old(self).spec_document(),
            final(self).spec_cursor() == old(self).spec_cursor(),
            final(self).spec_offset() == old(self).spec_offset(),
            final(self).spec_terminal() == old(self).spec_terminal(),
            final(self).spec_should_quit() == old(self).spec_should_quit(),
    {
        self.status_message = StatusMessage::new(text, now);
    }

    /// Takes the answer to the file name prompt: without one the save is
    /// aborted and `false` comes back; with one the document is bound to it
    /// and `true` says that it can be written.
    pub fn name_chosen(&mut self, name: Option<Vec<char>>, now: u64) -> (r: bool)
        requires
            old(self).wf(),
        ensures
            final(self).wf(),
            r == name is Some,
            name is None ==> final(self).spec_status().text@ == SAVE_ABORTED@
                && final(self).spec_status().time == now
                && final(self).spec_document() == old(self).spec_document(),
            name matches Some(n) ==> final(self).spec_document().name() == Some(n@)
                && final(self).spec_status() == old(self).spec_status(),
            final(self).lines() == old(self).lines(),
            final(self).spec_cursor() == old(self).spec_cursor(),
            final(self).spec_offset() == old(self).spec_offset(),
            final(self).spec_terminal() == old(self).spec_terminal(),
            final(self).spec_should_quit() == old(self).spec_should_quit(),
    {
        match name {
            None => {
                self.set_status(chars_of(SAVE_ABORTED), now);
                false
            },
            Some(n) => {
                self.document.set_file_name(n);
                true
            },
        }
    }

    /// Reports how writing the file went.
    pub fn save_finished(&mut self, written: bool, now: u64)
        ensures
            final(self).spec_status().text@ == (if written { SAVED@ } else { SAVE_FAILED@ }),
            final(self).spec_status().time == now,
            final(self).spec_document() == old(self).spec_document(),
            final(self).spec_cursor() == old(self).spec_cursor(),
            final(self).spec_offset() == old(self).spec_offset(),
            final(self).spec_terminal() == old(self).spec_terminal(),
            final(self).spec_should_quit() == old(self).spec_should_quit(),
    {
        if written {
            self.set_status(chars_of(SAVED), now);
        } else {
            self.set_status(chars_of(SAVE_FAILED), now);
        }
    }

    /// One key of the line prompt: the status message shows `prompt`
    /// followed by what was typed so far. Enter ends the prompt; Esc clears
    /// the input and ends it; Backspace removes the last character; a
    /// character typed without Control alone is appended. `true` says that
    /// the prompt has ended.
    pub fn prompt(&mut self, prompt: &Vec<char>, input: &mut Vec<char>, pressed_key: KeyPress, now: u64) -> (done: bool)
        requires
            old(self).wf(),
        ensures
            final(self).wf(),
            done == (pressed_key.code == Key::Enter || pressed_key.code == Key::Esc),
            final(input)@ == (match pressed_key.code {
                Key::Esc => Seq::<char>::empty(),
                Key::Backspace => if old(input)@.len() > 0 { old(input)@.drop_last() } else { old(input)@ },
                Key::Char(c) => if !pressed_key.ctrl { old(input)@.push(c) } else { old(input)@ },
                _ => old(input)@,
            }),
            !done ==> final(self).spec_status().text@ == prompt@ + final(input)@
                && final(self).spec_status().time == now,
            done ==> final(self).spec_status() == old(self).spec_status(),
            final(self).spec_document() == old(self).spec_document(),
            final(self).spec_cursor() == old(self).spec_cursor(),
            final(self).spec_offset() == old(self).spec_offset(),
            final(self).spec_terminal() == old(self).spec_terminal(),
            final(self).spec_should_quit() == old(self).spec_should_quit(),
    {
        let mut done = false;
        match pressed_key.code {
            Key::Enter => {
                done = true;
            },
            Key::Char(c) => {
                if !pressed_key.ctrl {
                    input.push(c);
                }
            },
            Key::Backspace => {
                if input.len() > 0 {
                    input.pop();
                }
            },
            Key::Esc => {
                input.clear();
                done = true;
            },
            _ => {},
        }
        if !done {
            let mut text = prompt.clone();
            push_all(&mut text, input);
            self.set_status(text, now);
        }
        done
    }

    /// Ends the line prompt: the status message is cleared, and what was
    /// typed comes back, or `None` where nothing was.
    pub fn prompt_finished(&mut self, input: Vec<char>, now: u64) -> (r: Option<Vec<char>>)
        requires
            old(self).wf(),
        ensures
            final(self).wf(),
            input@.len() == 0 <==> r is None,
            r matches Some(v) ==> v@ == input@,
            final(self).spec_status().text@ == Seq::<char>::empty(),
            final(self).spec_status().time == now,
            final(self).spec_document() == old(self).spec_document(),
            final(self).spec_cursor() == old(self).spec_cursor(),
            final(self).spec_offset() == old(self).spec_offset(),
            final(self).spec_terminal() == old(self).spec_terminal(),
            final(self).spec_should_quit() == old(self).spec_should_quit(),
    {
        self.set_status(Vec::new(), now);
        if input.len() == 0 {
            None
        } else {
            Some(input)
        }
    }
}

} // verus!
