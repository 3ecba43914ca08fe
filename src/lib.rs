//! The core of a terminal text editor: rows of characters, the document
//! they form, cursor movement, the window that follows the cursor, and the
//! screen drawn from all of them.

pub mod position;
pub mod row;
pub mod document;
pub mod terminal;
pub mod text;
pub mod status;
pub mod editor;
pub mod render;
