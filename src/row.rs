use vstd::prelude::*;

verus! {

/// The character that separates lines; it never occurs inside a row.
pub open spec fn is_line_break(c: char) -> bool {
    c == '\n'
}

/// A line holds no line break.
pub open spec fn line_ok(s: Seq<char>) -> bool {
    forall|i: int| 0 <= i < s.len() ==> !is_line_break(#[trigger] s[i])
}

/// The characters of `s` whose columns fall in `[start, end)`, clipped to `s`.
pub open spec fn clipped(s: Seq<char>, start: int, end: int) -> Seq<char> {
    let lo = if start < s.len() { start } else { s.len() as int };
    let hi = if end < s.len() { end } else { s.len() as int };
    if lo < hi {
        s.subrange(lo, hi)
    } else {
        Seq::<char>::empty()
    }
}

/// A single line of text, addressed by character columns.
#[derive(Debug)]
pub struct Row {
    chars: Vec<char>,
}

impl View for Row {
    type V = Seq<char>;

    closed spec fn view(&self) -> Seq<char> {
        self.chars@
    }
}

impl Row {
    /// Rows never hold a line break.
    pub open spec fn wf(&self) -> bool {
        line_ok(self@)
    }

    /// An empty row.
    pub fn new() -> (r: Row)
        ensures
            r@ == Seq::<char>::empty(),
            r.wf(),
    {
        Row { chars: Vec::new() }
    }

    /// A row holding `chars`, which must hold no line break.
    pub fn from_chars(chars: Vec<char>) -> (r: Row)
        requires
            line_ok(chars@),
        ensures
            r@ == chars@,
            r.wf(),
    {
        Row { chars }
    }

    /// The number of characters.
    pub fn len(&self) -> (r: usize)
        ensures
            r == self@.len(),
    {
        self.chars.len()
    }

    /// Whether the row holds no character.
    pub fn is_empty(&self) -> (r: bool)
        ensures
            r == (self@.len() == 0),
    {
        self.chars.len() == 0
    }

    /// The characters, as a vector.
    pub fn to_chars(&self) -> (r: Vec<char>)
        ensures
            r@ == self@,
    {
        self.chars.clone()
    }

    /// The characters whose columns fall in `[start, end)`, clipped to the row.
    pub fn slice_for_display(&self, start: usize, end: usize) -> (r: Vec<char>)
        ensures
            r@ == clipped(self@, start as int, end as int),
    {
        let n = self.chars.len();
        let lo: usize = if start < n { start } else { n };
        let hi: usize = if end < n { end } else { n };
        let mut out: Vec<char> = Vec::new();
        if lo < hi {
            let mut i: usize = lo;
            while i < hi
                invariant
                    lo <= i <= hi,
                    hi <= n,
                    n == self@.len(),
                    out@ == self@.subrange(lo as int, i as int),
                decreases hi - i,
            {
                out.push(self.chars[i]);
                i = i + 1;
                assert(out@ =~= self@.subrange(lo as int, i as int));
            }
        }
        assert(out@ =~= clipped(self@, start as int, end as int));
        out
    }

    /// Inserts `ch` before column `col`.
    pub fn insert_char(&mut self, col: usize, ch: char)
        requires
            col <= old(self)@.len(),
            old(self)@.len() < usize::MAX,
        ensures
            final(self)@ == old(self)@.insert(col as int, ch),
            final(self)@.len() == old(self)@.len() + 1,
            old(self).wf() && !is_line_break(ch) ==> final(self).wf(),
    {
        self.chars.insert(col, ch);
        proof {
            let s = final(self)@;
            assert forall|i: int| 0 <= i < s.len() && old(self).wf() && !is_line_break(ch)
                implies !is_line_break(#[trigger] s[i]) by {
                if i < col {
                    assert(s[i] == old(self)@[i]);
                } else if i > col {
                    assert(s[i] == old(self)@[i - 1]);
                }
            }
        }
    }
    /// Removes the character at column `col`. Past the last character nothing
    /// changes and `false` comes back: joining lines is the document's work.
    pub fn delete_char(&mut self, col: usize) -> (deleted: bool)
        ensures
            deleted == (col < old(self)@.len()),
            deleted ==> final(self)@ == old(self)@.remove(col as int),
            !deleted ==> final(self)@ == old(self)@,
            old(self).wf() ==> final(self).wf(),
    {
        if col < self.chars.len() {
            self.chars.remove(col);
            proof {
                let s = final(self)@;
                assert forall|i: int| 0 <= i < s.len() && old(self).wf()
                    implies !is_line_break(#[trigger] s[i]) by {
                    if i < col {
                        assert(s[i] == old(self)@[i]);
                    } else {
                        assert(s[i] == old(self)@[i + 1]);
                    }
                }
            }
            true
        } else {
            false
        }
    }

    /// Splits the row into the characters before column `col` and those from it on.
    pub fn split_at(self, col: usize) -> (r: (Row, Row))
        requires
            col <= self@.len(),
        ensures
            r.0@ == self@.subrange(0, col as int),
            r.1@ == self@.subrange(col as int, self@.len() as int),
            self.wf() ==> r.0.wf() && r.1.wf(),
    {
        let mut first = self.chars;
        let second = first.split_off(col);
        proof {
            assert forall|i: int| 0 <= i < first@.len() && self.wf()
                implies !is_line_break(#[trigger] first@[i]) by {
                assert(first@[i] == self@[i]);
            }
            assert forall|i: int| 0 <= i < second@.len() && self.wf()
                implies !is_line_break(#[trigger] second@[i]) by {
                assert(second@[i] == self@[i + col]);
            }
        }
        (Row { chars: first }, Row { chars: second })
    }

    /// Appends the characters of `other`.
    pub fn join(&mut self, other: Row)
        requires
            old(self)@.len() + other@.len() <= usize::MAX,
        ensures
            final(self)@ == old(self)@ + other@,
            old(self).wf() && other.wf() ==> final(self).wf(),
    {
        let mut tail = other.chars;
        self.chars.append(&mut tail);
        proof {
            let s = final(self)@;
            let n = old(self)@.len() as int;
            assert forall|i: int| 0 <= i < s.len() && old(self).wf() && other.wf()
                implies !is_line_break(#[trigger] s[i]) by {
                if i < n {
                    assert(s[i] == old(self)@[i]);
                } else {
                    assert(s[i] == other@[i - n]);
                }
            }
        }
    }
}

/// Inserting a character at a column and then deleting at that same column
/// gives back the line as it was.
pub proof fn lemma_insert_then_delete(s: Seq<char>, col: int, ch: char)
    requires
        0 <= col <= s.len(),
    ensures
        s.insert(col, ch).remove(col) == s,
{
    assert(s.insert(col, ch).remove(col) =~= s);
}

} // verus!
