//! The cursor: a row and a column in the buffer, and the shape it is drawn in.
//!
//! The cursor knows nothing of the buffer. Its moves apply raw deltas; whoever
//! moves it is responsible for staying inside the text.

use vstd::prelude::*;

verus! {

/// Number of rows kept between the cursor and the edge of the viewport while
/// scrolling.
pub const SCROLL_HEIGHT: usize = 15;

/// How the cursor is drawn. Logic never reads it back.
#[derive(Debug, Clone, Copy, PartialEq, Eq, Structural)]
pub enum CursorStyle {
    Block,
    Bar,
}

/// A place in the buffer: `row` counts lines, `col` counts characters.
#[derive(Debug, Clone, Copy, PartialEq, Eq, Structural)]
pub struct Position {
    pub row: usize,
    pub col: usize,
}

/// Where the next edit takes place, and the shape that shows it.
#[derive(Debug, Clone, Copy)]
pub struct Cursor {
    pos: Position,
    style: CursorStyle,
}

impl Cursor {
    /// Where the cursor stands.
    pub closed spec fn spec_pos(&self) -> Position {
        self.pos
    }

    /// The shape the cursor is drawn in.
    pub closed spec fn spec_style(&self) -> CursorStyle {
        self.style
    }

    /// The line the cursor stands in.
    pub open spec fn spec_row(&self) -> usize {
        self.spec_pos().row
    }

    /// The character the cursor stands before.
    pub open spec fn spec_col(&self) -> usize {
        self.spec_pos().col
    }

    /// A block cursor in the top left corner.
    pub fn new() -> (c: Self)
        ensures
            c.pos() == (Position { row: 0, col: 0 }),
            c.style() == CursorStyle::Block,
    {
        Self { pos: Position { row: 0, col: 0 }, style: CursorStyle::Block }
    }

    /// Where the cursor stands.
    #[verifier::when_used_as_spec(spec_pos)]
    pub fn pos(&self) -> (p: Position)
        ensures
            p == self.pos(),
    {
        self.pos
    }

    /// The line the cursor stands in.
    #[verifier::when_used_as_spec(spec_row)]
    pub fn row(&self) -> (r: usize)
        ensures
            r == self.row(),
    {
        self.pos.row
    }

    /// The character the cursor stands before.
    #[verifier::when_used_as_spec(spec_col)]
    pub fn col(&self) -> (c: usize)
        ensures
            c == self.col(),
    {
        self.pos.col
    }

    /// Sets the row and leaves the column.
    pub fn set_row(&mut self, row: usize)
        ensures
            final(self).row() == row,
            final(self).col() == old(self).col(),
            final(self).style() == old(self).style(),
    {
        self.pos.row = row;
    }

    /// Sets the column and leaves the row.
    pub fn set_col(&mut self, col: usize)
        ensures
            final(self).row() == old(self).row(),
            final(self).col() == col,
            final(self).style() == old(self).style(),
    {
        self.pos.col = col;
    }

    /// Sets the position, whatever it was.
    pub fn move_to(&mut self, row: usize, col: usize)
        ensures
            final(self).row() == row,
            final(self).col() == col,
            final(self).style() == old(self).style(),
    {
        self.pos.row = row;
        self.pos.col = col;
    }

    /// Moves `n` rows down. The row must stay a machine number.
    pub fn move_down(&mut self, n: usize)
        requires
            old(self).row() + n <= usize::MAX,
        ensures
            final(self).row() == old(self).row() + n,
            final(self).col() == old(self).col(),
            final(self).style() == old(self).style(),
    {
        self.pos.row = self.pos.row + n;
    }

    /// Moves `n` rows up. There must be that many rows above the cursor.
    pub fn move_up(&mut self, n: usize)
        requires
            n <= old(self).row(),
        ensures
            final(self).row() == old(self).row() - n,
            final(self).col() == old(self).col(),
            final(self).style() == old(self).style(),
    {
        self.pos.row = self.pos.row - n;
    }

    /// Moves `n` columns left. There must be that many columns before the
    /// cursor.
    pub fn move_left(&mut self, n: usize)
        requires
            n <= old(self).col(),
        ensures
            final(self).row() == old(self).row(),
            final(self).col() == old(self).col() - n,
            final(self).style() == old(self).style(),
    {
        self.pos.col = self.pos.col - n;
    }

    /// Moves `n` columns right. The column must stay a machine number.
    pub fn move_right(&mut self, n: usize)
        requires
            old(self).col() + n <= usize::MAX,
        ensures
            final(self).row() == old(self).row(),
            final(self).col() == old(self).col() + n,
            final(self).style() == old(self).style(),
    {
        self.pos.col = self.pos.col + n;
    }

    /// Sets the column, whatever it was.
    pub fn move_to_col(&mut self, col: usize)
        ensures
            final(self).row() == old(self).row(),
            final(self).col() == col,
            final(self).style() == old(self).style(),
    {
        self.pos.col = col;
    }

    /// Sets the shape the cursor is drawn in.
    pub fn set_style(&mut self, style: CursorStyle)
        ensures
            final(self).pos() == old(self).pos(),
            final(self).style() == style,
    {
        self.style = style;
    }

    /// The shape the cursor is drawn in.
    #[verifier::when_used_as_spec(spec_style)]
    pub fn style(&self) -> (s: CursorStyle)
        ensures
            s == self.style(),
    {
        self.style
    }
}

} // verus!
