use vstd::prelude::*;

verus! {

/// The size of the text area: columns and rows.
#[derive(Clone, Copy, Debug, PartialEq, Eq, Structural)]
pub struct Size {
    pub columns: u16,
    pub rows: u16,
}

/// What the editor knows of its terminal: the size of the area it draws
/// the text in.
#[derive(Clone, Copy, Debug)]
pub struct Terminal {
    size: Size,
}

impl Terminal {
    /// The size of the text area.
    pub closed spec fn spec_size(&self) -> Size {
        self.size
    }

    /// A terminal of `columns` by `rows` cells: the last two rows are kept
    /// for the status line and the message line.
    pub fn from_window(columns: u16, rows: u16) -> (r: Terminal)
        ensures
            r.spec_size().columns == columns,
            r.spec_size().rows == (if rows >= 2 { rows - 2 } else { 0 }),
    {
        Terminal { size: Size { columns, rows: rows.saturating_sub(2) } }
    }

    /// A terminal whose text area is `size`.
    pub fn with_size(size: Size) -> (r: Terminal)
        ensures
            r.spec_size() == size,
    {
        Terminal { size }
    }

    /// The size of the text area.
    pub fn size(&self) -> (r: &Size)
        ensures
            *r == self.spec_size(),
    {
        &self.size
    }
}

} // verus!
