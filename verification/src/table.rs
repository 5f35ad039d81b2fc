//! Table bookkeeping: cell grid indices and the head/body position.
//!
//! The engine tracks which section of a table the stream is in and
//! offers a cell cursor over a growable grid.  Accumulating cell
//! content and drawing the final grid are an open item: table events
//! are tracked but produce no drawing instructions yet.

use crate::event::Block;
use vstd::prelude::*;

verus! {

/// Which section of a table the stream currently is in.
#[derive(Clone, Copy, Debug, PartialEq, Eq, Structural)]
pub enum TablePosition {
    /// Not inside a table head or row.
    Outside,
    /// Inside the header row.
    Head,
    /// Inside a body row.
    Row,
}

/// The blocks accumulated for one table cell.
pub type CellContent = Vec<Block>;

/// A growable grid of optional cell contents with a current-cell
/// cursor.
pub struct Table {
    pub columns: Vec<Vec<Option<CellContent>>>,
    pub column_index: usize,
    pub row_index: usize,
    pub position: TablePosition,
}

impl Table {
    /// A fresh table: one empty column, the cursor at its origin,
    /// outside any section.
    pub fn new() -> (t: Table)
        ensures
            t.columns@.len() == 1,
            t.columns@[0]@.len() == 0,
            t.column_index == 0,
            t.row_index == 0,
            t.position == TablePosition::Outside,
    {
        let mut columns: Vec<Vec<Option<CellContent>>> = Vec::new();
        columns.push(Vec::new());
        Table { columns, column_index: 0, row_index: 0, position: TablePosition::Outside }
    }

    /// Reads the cell under the cursor.
    pub fn get_current_cell(&self) -> (c: &Option<CellContent>)
        requires
            self.column_index < self.columns@.len(),
            self.row_index < self.columns@[self.column_index as int]@.len(),
        ensures
            *c == self.columns@[self.column_index as int]@[self.row_index as int],
    {
        &self.columns[self.column_index][self.row_index]
    }

    /// Replaces the cell under the cursor.
    pub fn set_current_cell(&mut self, contents: Option<CellContent>)
        requires
            old(self).column_index < old(self).columns@.len(),
            old(self).row_index < old(self).columns@[old(self).column_index as int]@.len(),
        ensures
            final(self).columns@.len() == old(self).columns@.len(),
            final(self).columns@[old(self).column_index as int]@
                == old(self).columns@[old(self).column_index as int]@
                .update(old(self).row_index as int, contents),
            forall|i: int|
                0 <= i < old(self).columns@.len() && i != old(self).column_index
                    ==> final(self).columns@[i] == old(self).columns@[i],
            final(self).column_index == old(self).column_index,
            final(self).row_index == old(self).row_index,
            final(self).position == old(self).position,
    {
        let ci = self.column_index;
        let mut row = self.columns.remove(ci);
        row[self.row_index] = contents;
        self.columns.insert(ci, row);
    }

    /// Moves the cursor one cell to the right.
    pub fn next_cell(&mut self)
        requires
            old(self).column_index < usize::MAX,
        ensures
            final(self).column_index == old(self).column_index + 1,
            final(self).row_index == old(self).row_index,
            final(self).columns@ == old(self).columns@,
            final(self).position == old(self).position,
    {
        self.column_index = self.column_index + 1;
    }

    /// Moves the cursor to the start of the next row.
    pub fn next_row(&mut self)
        requires
            old(self).row_index < usize::MAX,
        ensures
            final(self).column_index == 0,
            final(self).row_index == old(self).row_index + 1,
            final(self).columns@ == old(self).columns@,
            final(self).position == old(self).position,
    {
        self.column_index = 0;
        self.row_index = self.row_index + 1;
    }
}

} // verus!
