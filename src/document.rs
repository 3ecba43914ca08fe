use vstd::prelude::*;
use crate::position::Position;
use crate::row::{Row, line_ok, is_line_break};
use crate::text::push_all;

verus! {

/// Every line of `lines` is free of line breaks.
pub open spec fn lines_ok(lines: Seq<Seq<char>>) -> bool {
    forall|i: int| 0 <= i < lines.len() ==> line_ok(#[trigger] lines[i])
}

/// The length of line `y`, or 0 past the last line.
pub open spec fn line_len(lines: Seq<Seq<char>>, y: int) -> nat {
    if 0 <= y < lines.len() {
        lines[y].len()
    } else {
        0
    }
}

/// The number of characters over all lines.
pub open spec fn total_chars(lines: Seq<Seq<char>>) -> nat
    decreases lines.len(),
{
    if lines.len() == 0 {
        0
    } else {
        total_chars(lines.drop_last()) + lines.last().len()
    }
}

/// The lines after `ch` is typed at `(x, y)`: past the last line a new line
/// is started first.
pub open spec fn inserted(lines: Seq<Seq<char>>, x: int, y: int, ch: char) -> Seq<Seq<char>> {
    if y == lines.len() {
        lines.push(seq![ch])
    } else {
        lines.update(y, lines[y].insert(x, ch))
    }
}

/// The lines after a delete at `(x, y)`: the character there goes; at the end
/// of a line that has a successor the two lines are joined; otherwise nothing
/// changes.
pub open spec fn deleted(lines: Seq<Seq<char>>, x: int, y: int) -> Seq<Seq<char>> {
    if 0 <= y < lines.len() && 0 <= x < lines[y].len() {
        lines.update(y, lines[y].remove(x))
    } else if 0 <= y && y + 1 < lines.len() && x == lines[y].len() {
        lines.update(y, lines[y] + lines[y + 1]).remove(y + 1)
    } else {
        lines
    }
}

/// The lines after a line break at `(x, y)`: line `y` is split at column `x`;
/// past the last line an empty line is added.
pub open spec fn broken(lines: Seq<Seq<char>>, x: int, y: int) -> Seq<Seq<char>> {
    if y == lines.len() {
        lines.push(Seq::<char>::empty())
    } else {
        lines.update(y, lines[y].subrange(0, x)).insert(
            y + 1,
            lines[y].subrange(x, lines[y].len() as int),
        )
    }
}

/// The lines put together with a line break between each two.
pub open spec fn joined(lines: Seq<Seq<char>>) -> Seq<char>
    decreases lines.len(),
{
    if lines.len() == 0 {
        Seq::<char>::empty()
    } else if lines.len() == 1 {
        lines[0]
    } else {
        joined(lines.drop_last()).push('\n') + lines.last()
    }
}

/// The text of a file holding `lines`: each line followed by a line break.
pub open spec fn file_text(lines: Seq<Seq<char>>) -> Seq<char>
    decreases lines.len(),
{
    if lines.len() == 0 {
        Seq::<char>::empty()
    } else {
        file_text(lines.drop_last()) + lines.last().push('\n')
    }
}

/// `lines` are the lines of `text`: the text is the lines joined by line
/// breaks, with one more line break at the end where the text ends in one;
/// an empty text has no lines at all.
pub open spec fn lines_of(text: Seq<char>, lines: Seq<Seq<char>>) -> bool {
    &&& lines_ok(lines)
    &&& (lines.len() == 0 <==> text.len() == 0)
    &&& text == (if text.len() > 0 && is_line_break(text.last()) {
        joined(lines).push('\n')
    } else {
        joined(lines)
    })
}

proof fn lemma_joined_push_char(s: Seq<Seq<char>>, a: Seq<char>, c: char)
    ensures
        joined(s.push(a.push(c))) == joined(s.push(a)).push(c),
{
    if s.len() == 0 {
        assert(s.push(a.push(c))[0] == a.push(c));
        assert(s.push(a)[0] == a);
    } else {
        assert(s.push(a.push(c)).drop_last() =~= s);
        assert(s.push(a).drop_last() =~= s);
        assert(joined(s).push('\n') + a.push(c) =~= (joined(s).push('\n') + a).push(c));
    }
}

proof fn lemma_joined_push_empty(s: Seq<Seq<char>>)
    requires
        s.len() > 0,
    ensures
        joined(s.push(Seq::<char>::empty())) == joined(s).push('\n'),
{
    assert(s.push(Seq::<char>::empty()).drop_last() =~= s);
    assert(joined(s).push('\n') + Seq::<char>::empty() =~= joined(s).push('\n'));
}

proof fn lemma_joined_ends_with(s: Seq<Seq<char>>, a: Seq<char>)
    requires
        a.len() > 0,
    ensures
        joined(s.push(a)).len() >= a.len(),
        joined(s.push(a)).last() == a.last(),
{
    if s.len() == 0 {
        assert(s.push(a)[0] == a);
    } else {
        assert(s.push(a).drop_last() =~= s);
    }
}

proof fn lemma_file_text_joined(lines: Seq<Seq<char>>)
    requires
        lines.len() > 0,
    ensures
        file_text(lines) == joined(lines).push('\n'),
    decreases lines.len(),
{
    if lines.len() == 1 {
        assert(lines.drop_last() =~= Seq::<Seq<char>>::empty());
        assert(file_text(lines.drop_last()) =~= Seq::<char>::empty());
        assert(Seq::<char>::empty() + lines.last().push('\n') =~= lines[0].push('\n'));
    } else {
        lemma_file_text_joined(lines.drop_last());
        let j = joined(lines.drop_last());
        assert(j.push('\n') + lines.last().push('\n') =~= (j.push('\n') + lines.last()).push('\n'));
    }
}

proof fn lemma_joined_unique(a: Seq<Seq<char>>, b: Seq<Seq<char>>)
    requires
        lines_ok(a),
        lines_ok(b),
        a.len() > 0,
        b.len() > 0,
        joined(a) == joined(b),
    ensures
        a == b,
    decreases a.len() + b.len(),
{
    let s = joined(a);
    if a.len() == 1 && b.len() == 1 {
        assert(a =~= b);
    } else if a.len() == 1 || b.len() == 1 {
        let (one, many) = if a.len() == 1 { (a, b) } else { (b, a) };
        let j = joined(many.drop_last());
        assert(s == j.push('\n') + many.last());
        assert(s == one[0]);
        assert(s[j.len() as int] == '\n');
        assert(line_ok(one[0]));
        assert(!is_line_break(one[0][j.len() as int]));
    } else {
        let (la, lb) = (a.last(), b.last());
        let (ja, jb) = (joined(a.drop_last()), joined(b.drop_last()));
        assert(s == ja.push('\n') + la);
        assert(s == jb.push('\n') + lb);
        assert(s.len() == ja.len() + 1 + la.len());
        assert(s.len() == jb.len() + 1 + lb.len());
        assert(forall|i: int| ja.len() + 1 <= i < s.len() ==> s[i] == la[i - ja.len() - 1]);
        assert(forall|i: int| jb.len() + 1 <= i < s.len() ==> s[i] == lb[i - jb.len() - 1]);
        assert(s[ja.len() as int] == '\n');
        assert(s[jb.len() as int] == '\n');
        assert(line_ok(la));
        assert(line_ok(lb));
        if la.len() < lb.len() {
            assert(s[ja.len() as int] == '\n');
            assert(!is_line_break(lb[ja.len() - jb.len() - 1]));
            assert(s[ja.len() as int] == lb[ja.len() - jb.len() - 1]);
        } else if lb.len() < la.len() {
            assert(s[jb.len() as int] == '\n');
            assert(!is_line_break(la[jb.len() - ja.len() - 1]));
            assert(s[jb.len() as int] == la[jb.len() - ja.len() - 1]);
        } else {
            assert(la =~= s.subrange(ja.len() + 1int, s.len() as int));
            assert(lb =~= s.subrange(jb.len() + 1int, s.len() as int));
            assert(ja =~= s.subrange(0, ja.len() as int));
            assert(jb =~= s.subrange(0, jb.len() as int));
            lemma_joined_unique(a.drop_last(), b.drop_last());
            assert(a =~= a.drop_last().push(la));
            assert(b =~= b.drop_last().push(lb));
        }
    }
}

/// Writing a document to its file and reading that file back gives the same
/// rows: the lines of the file's text are exactly the document's lines.
pub proof fn lemma_save_then_open(lines: Seq<Seq<char>>, reread: Seq<Seq<char>>)
    requires
        lines_ok(lines),
    ensures
        lines_of(file_text(lines), lines),
        lines_of(file_text(lines), reread) ==> reread == lines,
{
    let t = file_text(lines);
    if lines.len() == 0 {
        assert(t =~= Seq::<char>::empty());
        if lines_of(t, reread) {
            assert(reread =~= lines);
        }
    } else {
        lemma_file_text_joined(lines);
        assert(t.last() == '\n');
        if lines_of(t, reread) {
            assert(joined(reread) =~= t.drop_last());
            assert(joined(lines) =~= t.drop_last());
            lemma_joined_unique(lines, reread);
        }
    }
}

/// The whole text in memory: an ordered sequence of rows and the name of
/// the file it belongs to, if any.
#[derive(Debug)]
pub struct Document {
    rows: Vec<Row>,
    file_name: Option<Vec<char>>,
}

impl Document {
    /// The text, one sequence of characters per line.
    pub closed spec fn lines(&self) -> Seq<Seq<char>> {
        Seq::new(self.rows@.len(), |i: int| self.rows@[i]@)
    }

    /// The file name, if one is bound.
    pub closed spec fn name(&self) -> Option<Seq<char>> {
        match self.file_name {
            Some(n) => Some(n@),
            None => None,
        }
    }

    /// No row holds a line break.
    pub open spec fn wf(&self) -> bool {
        lines_ok(self.lines())
    }

    /// An empty, untitled document: no rows at all.
    pub fn default() -> (r: Document)
        ensures
            r.lines() == Seq::<Seq<char>>::empty(),
            r.name() is None,
            r.wf(),
    {
        let r = Document { rows: Vec::new(), file_name: None };
        assert(r.lines() =~= Seq::<Seq<char>>::empty());
        r
    }

    /// A document named `file_name` whose rows are `lines`, in order.
    pub fn from_lines(file_name: Vec<char>, lines: Vec<Vec<char>>) -> (r: Document)
        requires
            forall|i: int| 0 <= i < lines@.len() ==> line_ok(#[trigger] lines@[i]@),
        ensures
            r.lines() == Seq::new(lines@.len(), |i: int| lines@[i]@),
            r.name() == Some(file_name@),
            r.wf(),
    {
        let mut rows: Vec<Row> = Vec::new();
        let mut i: usize = 0;
        while i < lines.len()
            invariant
                i <= lines@.len(),
                rows@.len() == i,
                forall|k: int| 0 <= k < lines@.len() ==> line_ok(#[trigger] lines@[k]@),
                forall|k: int| 0 <= k < i ==> (#[trigger] rows@[k])@ == lines@[k]@,
            decreases lines@.len() - i,
        {
            let row = Row::from_chars(lines[i].clone());
            rows.push(row);
            i = i + 1;
        }
        let r = Document { rows, file_name: Some(file_name) };
        assert(r.lines() =~= Seq::new(lines@.len(), |i: int| lines@[i]@));
        r
    }

    /// The document named `file_name` that holds the lines of `text`, as a
    /// file holds them: split at each line break, a final line break ending
    /// the last line rather than starting a new one.
    pub fn open(file_name: Vec<char>, text: &Vec<char>) -> (r: Document)
        ensures
            lines_of(text@, r.lines()),
            r.name() == Some(file_name@),
            r.wf(),
    {
        let mut lines: Vec<Vec<char>> = Vec::new();
        let mut cur: Vec<char> = Vec::new();
        let mut i: usize = 0;
        while i < text.len()
            invariant
                i <= text@.len(),
                forall|k: int| 0 <= k < lines@.len() ==> line_ok(#[trigger] lines@[k]@),
                line_ok(cur@),
                joined(Seq::new(lines@.len(), |k: int| lines@[k]@).push(cur@)) == text@.subrange(0, i as int),
            decreases text@.len() - i,
        {
            let c = text[i];
            let ghost vs = Seq::new(lines@.len(), |k: int| lines@[k]@);
            if c == '\n' {
                let ghost old_cur = cur@;
                lines.push(cur);
                cur = Vec::new();
                proof {
                    let ws = Seq::new(lines@.len(), |k: int| lines@[k]@);
                    assert(ws =~= vs.push(old_cur));
                    lemma_joined_push_empty(ws);
                    assert(cur@ =~= Seq::<char>::empty());
                }
            } else {
                let ghost old_cur = cur@;
                cur.push(c);
                proof {
                    lemma_joined_push_char(vs, old_cur, c);
                    assert forall|k: int| 0 <= k < cur@.len() implies !is_line_break(#[trigger] cur@[k]) by {
                        if k < old_cur.len() {
                            assert(cur@[k] == old_cur[k]);
                        }
                    }
                }
            }
            i = i + 1;
            assert(text@.subrange(0, i as int) =~= text@.subrange(0, i - 1).push(c));
        }
        assert(text@.subrange(0, text@.len() as int) =~= text@);
        let ghost vs = Seq::new(lines@.len(), |k: int| lines@[k]@);
        if cur.len() > 0 {
            proof {
                lemma_joined_ends_with(vs, cur@);
            }
            lines.push(cur);
            let r = Document::from_lines(file_name, lines);
            assert(r.lines() =~= vs.push(cur@));
            r
        } else {
            proof {
                assert(cur@ =~= Seq::<char>::empty());
                if vs.len() > 0 {
                    lemma_joined_push_empty(vs);
                } else {
                    assert(vs.push(cur@)[0] == cur@);
                }
            }
            let r = Document::from_lines(file_name, lines);
            assert(r.lines() =~= vs);
            r
        }
    }

    /// The text of the file that holds this document: each row followed by
    /// a line break.
    pub fn to_text(&self) -> (r: Vec<char>)
        ensures
            r@ == file_text(self.lines()),
    {
        let mut out: Vec<char> = Vec::new();
        let mut i: usize = 0;
        while i < self.rows.len()
            invariant
                i <= self.rows@.len(),
                out@ == file_text(self.lines().subrange(0, i as int)),
            decreases self.rows@.len() - i,
        {
            let line = self.rows[i].to_chars();
            push_all(&mut out, &line);
            out.push('\n');
            proof {
                let l = self.lines();
                assert(l.subrange(0, i + 1).drop_last() =~= l.subrange(0, i as int));
                assert(l.subrange(0, i + 1).last() == line@);
            }
            i = i + 1;
        }
        assert(self.lines().subrange(0, self.rows@.len() as int) =~= self.lines());
        out
    }

    /// The number of rows.
    pub fn len(&self) -> (r: usize)
        ensures
            r == self.lines().len(),
    {
        self.rows.len()
    }

    /// Whether the document has no rows.
    pub fn is_empty(&self) -> (r: bool)
        ensures
            r == (self.lines().len() == 0),
    {
        self.rows.len() == 0
    }

    /// The row at `index`, or `None` past the last row.
    pub fn row(&self, index: usize) -> (r: Option<&Row>)
        ensures
            index < self.lines().len() <==> r is Some,
            r matches Some(row) ==> row@ == self.lines()[index as int],
    {
        if index < self.rows.len() {
            Some(&self.rows[index])
        } else {
            None
        }
    }

    /// The length of row `index`, or 0 past the last row.
    pub fn row_len(&self, index: usize) -> (r: usize)
        ensures
            r == line_len(self.lines(), index as int),
    {
        if index < self.rows.len() {
            self.rows[index].len()
        } else {
            0
        }
    }

    /// The bound file name, if any.
    pub fn file_name(&self) -> (r: Option<Vec<char>>)
        ensures
            r is Some <==> self.name() is Some,
            r matches Some(n) ==> self.name() == Some(n@),
    {
        match &self.file_name {
            Some(n) => Some(n.clone()),
            None => None,
        }
    }

    /// Binds the document to `name`.
    pub fn set_file_name(&mut self, name: Vec<char>)
        ensures
            final(self).name() == Some(name@),
            final(self).lines() == old(self).lines(),
    {
        self.file_name = Some(name);
        assert(final(self).lines() =~= old(self).lines());
    }

    /// The text, one vector of characters per line, as it is written to disk.
    pub fn to_lines(&self) -> (r: Vec<Vec<char>>)
        ensures
            r@.len() == self.lines().len(),
            forall|i: int| 0 <= i < r@.len() ==> (#[trigger] r@[i])@ == self.lines()[i],
    {
        let mut out: Vec<Vec<char>> = Vec::new();
        let mut i: usize = 0;
        while i < self.rows.len()
            invariant
                i <= self.rows@.len(),
                out@.len() == i,
                forall|k: int| 0 <= k < i ==> (#[trigger] out@[k])@ == self.rows@[k]@,
            decreases self.rows@.len() - i,
        {
            out.push(self.rows[i].to_chars());
            i = i + 1;
        }
        out
    }
    /// Types `ch` at `pos`: past the last row a new row is started first.
    pub fn insert(&mut self, pos: &Position, ch: char)
        requires
            pos.y <= old(self).lines().len(),
            pos.x <= line_len(old(self).lines(), pos.y as int),
            old(self).lines().len() < usize::MAX,
            line_len(old(self).lines(), pos.y as int) < usize::MAX,
        ensures
            final(self).lines() == inserted(old(self).lines(), pos.x as int, pos.y as int, ch),
            final(self).name() == old(self).name(),
            old(self).wf() && !is_line_break(ch) ==> final(self).wf(),
    {
        let y = pos.y;
        if y == self.rows.len() {
            self.rows.push(Row::new());
        }
        assert(self.rows@[y as int]@.len() == line_len(old(self).lines(), y as int));
        self.rows[y].insert_char(pos.x, ch);
        proof {
            let l = final(self).lines();
            let want = inserted(old(self).lines(), pos.x as int, pos.y as int, ch);
            assert(l[y as int] =~= want[y as int]);
            assert(l =~= want);
            if old(self).wf() && !is_line_break(ch) {
                assert forall|i: int| 0 <= i < l.len() implies line_ok(#[trigger] l[i]) by {
                    if i != y {
                        assert(l[i] == old(self).lines()[i]);
                    }
                }
            }
        }
    }

    /// Deletes at `pos`: the character there, or, at the end of a row that
    /// has a successor, the line break (the next row is joined on). Anywhere
    /// else nothing changes.
    #[verifier::rlimit(40)]
    pub fn delete(&mut self, pos: &Position)
        requires
            pos.y + 1 < old(self).lines().len() ==> old(self).lines()[pos.y as int].len()
                + old(self).lines()[pos.y + 1].len() <= usize::MAX,
        ensures
            final(self).lines() == deleted(old(self).lines(), pos.x as int, pos.y as int),
            final(self).name() == old(self).name(),
            old(self).wf() ==> final(self).wf(),
    {
        let y = pos.y;
        let x = pos.x;
        if y >= self.rows.len() {
            return;
        }
        let n = self.rows[y].len();
        if x < n {
            let _ = self.rows[y].delete_char(x);
            proof {
                let l = final(self).lines();
                let want = deleted(old(self).lines(), x as int, y as int);
                assert(l[y as int] =~= want[y as int]);
                assert(l =~= want);
                if old(self).wf() {
                    assert forall|i: int| 0 <= i < l.len() implies line_ok(#[trigger] l[i]) by {
                        if i != y {
                            assert(l[i] == old(self).lines()[i]);
                        }
                    }
                }
            }
        } else if x == n && y + 1 < self.rows.len() {
            let next = self.rows.remove(y + 1);
            self.rows[y].join(next);
            proof {
                let l = final(self).lines();
                let want = deleted(old(self).lines(), x as int, y as int);
                assert(l =~= want);
                if old(self).wf() {
                    assert forall|i: int| 0 <= i < l.len() implies line_ok(#[trigger] l[i]) by {
                        if i < y {
                            assert(l[i] == old(self).lines()[i]);
                        } else if i > y {
                            assert(l[i] == old(self).lines()[i + 1]);
                        } else {
                            assert(line_ok(old(self).lines()[y + 1]));
                        }
                    }
                }
            }
        }
    }

    /// Breaks the line at `pos`: row `pos.y` keeps the characters before
    /// column `pos.x` and the rest becomes a new row right after it. Past the
    /// last row an empty row is added.
    pub fn insert_newline(&mut self, pos: &Position)
        requires
            pos.y <= old(self).lines().len(),
            pos.x <= line_len(old(self).lines(), pos.y as int),
            old(self).lines().len() < usize::MAX,
        ensures
            final(self).lines() == broken(old(self).lines(), pos.x as int, pos.y as int),
            final(self).lines().len() == old(self).lines().len() + 1,
            final(self).name() == old(self).name(),
            old(self).wf() ==> final(self).wf(),
    {
        let y = pos.y;
        if y == self.rows.len() {
            self.rows.push(Row::new());
            proof {
                let l = final(self).lines();
                assert(l =~= broken(old(self).lines(), pos.x as int, pos.y as int));
                if old(self).wf() {
                    assert forall|i: int| 0 <= i < l.len() implies line_ok(#[trigger] l[i]) by {
                        if i < y {
                            assert(l[i] == old(self).lines()[i]);
                        }
                    }
                }
            }
            return;
        }
        let row = self.rows.remove(y);
        let (first, second) = row.split_at(pos.x);
        self.rows.insert(y, second);
        self.rows.insert(y, first);
        proof {
            let l = final(self).lines();
            let want = broken(old(self).lines(), pos.x as int, pos.y as int);
            assert(l =~= want);
            if old(self).wf() {
                assert(line_ok(old(self).lines()[y as int]));
                assert forall|i: int| 0 <= i < l.len() implies line_ok(#[trigger] l[i]) by {
                    if i < y {
                        assert(l[i] == old(self).lines()[i]);
                    } else if i > y + 1 {
                        assert(l[i] == old(self).lines()[i - 1]);
                    }
                }
            }
        }
    }
}

/// The character count of two texts put one after the other is the sum of
/// their counts.
pub proof fn lemma_total_chars_concat(a: Seq<Seq<char>>, b: Seq<Seq<char>>)
    ensures
        total_chars(a + b) == total_chars(a) + total_chars(b),
    decreases b.len(),
{
    if b.len() == 0 {
        assert(a + b =~= a);
    } else {
        assert((a + b).drop_last() =~= a + b.drop_last());
        assert((a + b).last() == b.last());
        lemma_total_chars_concat(a, b.drop_last());
    }
}

/// Breaking a line at a column and then deleting at that column, where the
/// two halves meet, gives back the text as it was, with as many lines as it
/// had.
pub proof fn lemma_newline_then_delete(lines: Seq<Seq<char>>, x: int, y: int)
    requires
        0 <= y < lines.len(),
        0 <= x <= lines[y].len(),
    ensures
        deleted(broken(lines, x, y), x, y) == lines,
        deleted(broken(lines, x, y), x, y).len() == lines.len(),
{
    let b = broken(lines, x, y);
    assert(b[y] =~= lines[y].subrange(0, x));
    assert(b[y] + b[y + 1] =~= lines[y]);
    assert(deleted(b, x, y) =~= lines);
}

/// A backspace at the start of line `y > 0` moves to the end of line `y - 1`
/// and deletes there: the two lines are joined, so the text loses exactly one
/// line and keeps every character.
pub proof fn lemma_join_with_previous(lines: Seq<Seq<char>>, y: int)
    requires
        0 < y < lines.len(),
    ensures
        deleted(lines, lines[y - 1].len() as int, y - 1).len() == lines.len() - 1,
        total_chars(deleted(lines, lines[y - 1].len() as int, y - 1)) == total_chars(lines),
{
    let d = deleted(lines, lines[y - 1].len() as int, y - 1);
    let pre = lines.subrange(0, y - 1);
    let post = lines.subrange(y + 1, lines.len() as int);
    let a = lines[y - 1];
    let b = lines[y];
    assert(lines =~= pre + seq![a, b] + post);
    assert(d =~= pre + seq![a + b] + post);
    lemma_total_chars_concat(pre + seq![a, b], post);
    lemma_total_chars_concat(pre, seq![a, b]);
    lemma_total_chars_concat(pre + seq![a + b], post);
    lemma_total_chars_concat(pre, seq![a + b]);
    assert(seq![a, b].drop_last() =~= seq![a]);
    assert(seq![a].drop_last() =~= Seq::<Seq<char>>::empty());
    assert(seq![a + b].drop_last() =~= Seq::<Seq<char>>::empty());
    assert(total_chars(Seq::<Seq<char>>::empty()) == 0);
    assert(seq![a].last() == a);
    assert(total_chars(seq![a]) == a.len());
    assert(seq![a, b].last() == b);
    assert(seq![a + b].last() == a + b);
    assert(total_chars(seq![a, b]) == a.len() + b.len());
    assert(total_chars(seq![a + b]) == (a + b).len());
}

} // verus!
