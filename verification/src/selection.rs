//! Linear text selection over the log viewer's grid.
//!
//! A selection has an anchor (where the user clicked) and a head (where the
//! pointer is now), both 0-based `(row, col)` grid cells.  Walking the
//! selection in reading order gives the same cells whichever way the user
//! dragged.
use vstd::prelude::*;

verus! {

/// A grid cell address: `row` is the buffer row, `col` the column, both 0-based.
#[derive(Debug, Clone, Copy, PartialEq, Eq, Structural)]
pub struct GridPoint {
    pub row: usize,
    pub col: usize,
}

/// A linear selection between an anchor and a head cell, in either order.
#[derive(Debug, Clone, Copy, PartialEq, Eq, Structural)]
pub struct Selection {
    pub anchor: GridPoint,
    pub head: GridPoint,
}

/// Inclusive column range highlighted on one row of a selection.
#[derive(Debug, Clone, Copy, PartialEq, Eq, Structural)]
pub struct RowRange {
    pub row: usize,
    pub start_col: usize,
    pub end_col: usize,
}

/// Reading order on cells: row first, then column.
pub open spec fn point_le(a: GridPoint, b: GridPoint) -> bool {
    a.row < b.row || (a.row == b.row && a.col <= b.col)
}

impl Selection {
    /// The endpoints in reading order.
    pub open spec fn start(self) -> GridPoint {
        if point_le(self.anchor, self.head) { self.anchor } else { self.head }
    }

    pub open spec fn end(self) -> GridPoint {
        if point_le(self.anchor, self.head) { self.head } else { self.anchor }
    }

    /// Whether the cell `(row, col)` lies between the two endpoints, inclusive.
    pub open spec fn covers(self, row: int, col: int) -> bool {
        let (s, e) = (self.start(), self.end());
        &&& (s.row < row || (s.row == row && s.col <= col))
        &&& (row < e.row || (row == e.row && col <= e.col))
    }

    /// The range highlighted on the `i`-th row of the selection, for a grid
    /// `cols` wide (`cols > 0`).
    pub open spec fn range_at(self, cols: nat, i: int) -> RowRange {
        let (s, e) = (self.start(), self.end());
        let row = s.row + i;
        let last = (cols - 1) as usize;
        if s.row == e.row {
            RowRange { row: row as usize, start_col: s.col, end_col: e.col }
        } else if row == s.row {
            RowRange { row: row as usize, start_col: s.col, end_col: last }
        } else if row == e.row {
            RowRange { row: row as usize, start_col: 0, end_col: e.col }
        } else {
            RowRange { row: row as usize, start_col: 0, end_col: last }
        }
    }

    /// The whole list of row ranges for a grid `cols` wide.
    pub open spec fn ranges(self, cols: nat) -> Seq<RowRange> {
        if cols == 0 {
            Seq::empty()
        } else {
            Seq::new((self.end().row - self.start().row + 1) as nat, |i: int| self.range_at(cols, i))
        }
    }

    /// New selection collapsed to the single cell `point`.
    pub fn at(point: GridPoint) -> (s: Self)
        ensures
            s.anchor == point,
            s.head == point,
    {
        Self { anchor: point, head: point }
    }

    /// Move the head end, keeping the anchor.
    pub fn extend_to(&mut self, head: GridPoint)
        ensures
            final(self).anchor == old(self).anchor,
            final(self).head == head,
    {
        self.head = head;
    }

    /// The endpoints in reading order: `(start, end)` with `start <= end`.
    pub fn ordered_endpoints(&self) -> (r: (GridPoint, GridPoint))
        ensures
            r.0 == self.start(),
            r.1 == self.end(),
            point_le(r.0, r.1),
            (r.0 == self.anchor && r.1 == self.head) || (r.0 == self.head && r.1 == self.anchor),
    {
        if self.anchor.row < self.head.row
            || (self.anchor.row == self.head.row && self.anchor.col <= self.head.col)
        {
            (self.anchor, self.head)
        } else {
            (self.head, self.anchor)
        }
    }

    /// Whether the cell `(row, col)` is within the selection.
    pub fn contains(&self, row: usize, col: usize) -> (b: bool)
        ensures
            b == self.covers(row as int, col as int),
    {
        let (start, end) = self.ordered_endpoints();
        let after_start = start.row < row || (start.row == row && start.col <= col);
        let before_end = row < end.row || (row == end.row && col <= end.col);
        after_start && before_end
    }

    /// The inclusive column range to highlight on each row, top to bottom.
    /// Intermediate rows of a multi-row selection reach the right edge of a
    /// grid `cols` wide; a grid of width 0 has nothing to highlight.
    pub fn iter_row_ranges(&self, cols: usize) -> (out: Vec<RowRange>)
        ensures
            out@ == self.ranges(cols as nat),
    {
        let (start, end) = self.ordered_endpoints();
        let mut out: Vec<RowRange> = Vec::new();
        if cols == 0 {
            return out;
        }
        let last_col = cols - 1;
        let mut row: usize = start.row;
        loop
            invariant_except_break
                out@.len() == row - start.row,
                forall|i: int| 0 <= i < out@.len() ==> out@[i] == self.range_at(cols as nat, i),
            invariant
                start == self.start(),
                end == self.end(),
                cols > 0,
                last_col == cols - 1,
                start.row <= row <= end.row,
            ensures
                out@ =~= self.ranges(cols as nat),
            decreases end.row - row,
        {
            let (sc, ec) = if start.row == end.row {
                (start.col, end.col)
            } else if row == start.row {
                (start.col, last_col)
            } else if row == end.row {
                (0, end.col)
            } else {
                (0, last_col)
            };
            out.push(RowRange { row, start_col: sc, end_col: ec });
            if row == end.row {
                break;
            }
            row = row + 1;
        }
        out
    }
}

/// A cell lies in one of the highlighted row ranges.
pub open spec fn in_ranges(ranges: Seq<RowRange>, row: int, col: int) -> bool {
    exists|i: int|
        0 <= i < ranges.len() && #[trigger] ranges[i].row == row && ranges[i].start_col <= col
            <= ranges[i].end_col
}

/// A selection covers the same cells whichever end is the anchor: dragging
/// backwards selects what dragging forwards does.
pub proof fn law_selection_symmetric(x: Selection, y: Selection, cols: nat, row: int, col: int)
    requires
        y.anchor == x.head,
        y.head == x.anchor,
    ensures
        x.start() == y.start(),
        x.end() == y.end(),
        x.covers(row, col) == y.covers(row, col),
        x.ranges(cols) == y.ranges(cols),
{
    if point_le(x.anchor, x.head) && point_le(x.head, x.anchor) {
        assert(x.anchor == x.head);
    }
    assert(x.ranges(cols) =~= y.ranges(cols));
}

/// On a grid `cols` wide, a cell left of the right edge is inside the
/// selection exactly when it lies in one of the row ranges the selection
/// walks: `contains` and `iter_row_ranges` describe the same cells.
pub proof fn lemma_contains_matches_row_ranges(sel: Selection, cols: usize, row: int, col: int)
    requires
        0 <= row,
        0 <= col < cols,
    ensures
        sel.covers(row, col) <==> in_ranges(sel.ranges(cols as nat), row, col),
{
    let rs = sel.ranges(cols as nat);
    let (s, e) = (sel.start(), sel.end());
    if sel.covers(row, col) {
        let i = row - s.row;
        assert(rs[i] == sel.range_at(cols as nat, i));
        assert(rs[i].row == row);
    }
    if in_ranges(rs, row, col) {
        let i = choose|i: int|
            0 <= i < rs.len() && #[trigger] rs[i].row == row && rs[i].start_col <= col
                <= rs[i].end_col;
        assert(rs[i] == sel.range_at(cols as nat, i));
        assert(s.row + i <= e.row);
        assert(s.row + i == row);
    }
}

} // verus!
