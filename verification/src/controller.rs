//! The traversal state machine: a cooperatively-stepped cursor over the
//! grid that yields one checkpoint per cell, asks for a page turn at page
//! boundaries, and terminates on interrupt or exhaustion.

use vstd::prelude::*;

verus! {

/// Grid dimensions stay below this bound, so paging arithmetic stays small.
pub const GRID_BOUND: i64 = 256;

/// A cell index is the first of its page exactly when it is a multiple of
/// the page size.
pub open spec fn spec_page_first(i: int, rows: int, cols: int) -> bool
    recommends
        rows * cols > 0,
{
    i % (rows * cols) == 0
}

/// The start row for the page holding cell `i` out of `m` cells in all:
/// zero while a full page remains, otherwise the bottom rows of the page
/// are aligned with the `ceil(remaining / cols)` remaining rows.
pub open spec fn spec_start_row(m: int, i: int, rows: int, cols: int) -> int
    recommends
        rows > 0,
        cols > 0,
{
    let page = rows * cols;
    if m - i >= page {
        0
    } else {
        let remain = m - i;
        let remain_row = (remain + cols - 1) / cols;
        let scroll_row = if remain_row < rows {
            remain_row
        } else {
            rows
        };
        rows - scroll_row
    }
}

/// One emitted checkpoint: the cell to capture, and whether the caller
/// must turn the page first (scrolling so that `start_row` is the top
/// visible row).
#[derive(Clone, Copy, PartialEq, Eq, Structural, Debug)]
pub struct Checkpoint {
    /// Zero-based index of the cell now ready for capture.
    pub index: i64,
    /// Whether a page turn precedes this cell.
    pub turn_page: bool,
    /// The row the page must start at after the turn.
    pub start_row: i64,
}

/// The controller's answer to one step.
#[derive(Clone, Copy, PartialEq, Eq, Structural, Debug)]
pub enum ControllerStep {
    /// A cell is ready; control returns to the caller until the next step.
    Yielded(Checkpoint),
    /// An external cancel signal was observed.
    Interrupted,
    /// The cursor has exhausted the visit count.
    Finished,
}

/// The terminal status of a whole traversal.
#[derive(Clone, Copy, PartialEq, Eq, Structural, Debug)]
pub enum ReturnResult {
    Interrupted,
    Finished,
}

/// The traversal state machine.  The cursor is owned here and never
/// mutated from outside.
pub struct RepositoryScanController {
    /// How many cells to visit in all.
    count: i64,
    /// The next cell to yield.
    cursor: i64,
    /// Grid rows per page.
    row: i64,
    /// Grid columns per page.
    col: i64,
}

impl RepositoryScanController {
    /// The machine's invariant: sane grid, cursor within `[0, count]`.
    pub open spec fn wf(&self) -> bool {
        &&& 0 < self.spec_row() <= GRID_BOUND
        &&& 0 < self.spec_col() <= GRID_BOUND
        &&& 0 <= self.spec_cursor() <= self.spec_count()
        &&& self.spec_count() <= i64::MAX / 2
    }

    /// The configured visit count.
    pub closed spec fn spec_count(&self) -> int {
        self.count as int
    }

    /// The next cell to yield.
    pub closed spec fn spec_cursor(&self) -> int {
        self.cursor as int
    }

    /// Grid rows per page.
    pub closed spec fn spec_row(&self) -> int {
        self.row as int
    }

    /// Grid columns per page.
    pub closed spec fn spec_col(&self) -> int {
        self.col as int
    }

    /// A fresh traversal over `count` cells of a `row` by `col` grid.
    pub fn new(count: i64, row: i64, col: i64) -> (r: RepositoryScanController)
        requires
            0 < row <= GRID_BOUND,
            0 < col <= GRID_BOUND,
            0 <= count <= i64::MAX / 2,
        ensures
            r.wf(),
            r.spec_count() == count,
            r.spec_cursor() == 0,
            r.spec_row() == row,
            r.spec_col() == col,
    {
        RepositoryScanController { count, cursor: 0, row, col }
    }

    /// Advance one step.  An observed interrupt ends the traversal; an
    /// exhausted cursor finishes it; otherwise the current cell is yielded
    /// (with a page turn exactly at page-first cells after the first) and
    /// the cursor moves on.
    pub fn step(&mut self, interrupted: bool) -> (r: ControllerStep)
        requires
            old(self).wf(),
        ensures
            final(self).wf(),
            final(self).spec_count() == old(self).spec_count(),
            final(self).spec_row() == old(self).spec_row(),
            final(self).spec_col() == old(self).spec_col(),
            interrupted ==> r == ControllerStep::Interrupted && *final(self) == *old(self),
            !interrupted && old(self).spec_cursor() >= old(self).spec_count() ==> r
                == ControllerStep::Finished && *final(self) == *old(self),
            !interrupted && old(self).spec_cursor() < old(self).spec_count() ==> {
                &&& final(self).spec_cursor() == old(self).spec_cursor() + 1
                &&& r matches ControllerStep::Yielded(cp) && cp.index == old(self).spec_cursor()
                    && cp.turn_page == (cp.index > 0 && spec_page_first(
                    cp.index as int,
                    old(self).spec_row(),
                    old(self).spec_col(),
                )) && cp.start_row == spec_start_row(
                    old(self).spec_count(),
                    cp.index as int,
                    old(self).spec_row(),
                    old(self).spec_col(),
                )
            },
    {
        if interrupted {
            return ControllerStep::Interrupted;
        }
        if self.cursor >= self.count {
            return ControllerStep::Finished;
        }
        let index = self.cursor;
        proof {
            assert(0 < self.row * self.col <= GRID_BOUND * GRID_BOUND) by (nonlinear_arith)
                requires
                    0 < self.row <= GRID_BOUND,
                    0 < self.col <= GRID_BOUND,
            ;
        }
        let page_size = self.row * self.col;
        let turn_page = index > 0 && index % page_size == 0;
        let start_row = start_row_for(self.count, index, self.row, self.col);
        self.cursor = index + 1;
        ControllerStep::Yielded(Checkpoint { index, turn_page, start_row })
    }
}

/// The start row for the page holding cell `cur_index` out of `max_count`.
pub fn start_row_for(max_count: i64, cur_index: i64, row: i64, col: i64) -> (r: i64)
    requires
        0 < row <= GRID_BOUND,
        0 < col <= GRID_BOUND,
        0 <= cur_index <= max_count,
        max_count <= i64::MAX / 2,
    ensures
        r == spec_start_row(max_count as int, cur_index as int, row as int, col as int),
        max_count - cur_index >= row * col ==> r == 0,
        0 <= r <= row,
        cur_index < max_count ==> r < row,
{
    proof {
        assert(0 < row * col <= GRID_BOUND * GRID_BOUND) by (nonlinear_arith)
            requires
                0 < row <= GRID_BOUND,
                0 < col <= GRID_BOUND,
        ;
    }
    let page_size = row * col;
    if max_count - cur_index >= page_size {
        0
    } else {
        let remain = max_count - cur_index;
        let remain_row = (remain + col - 1) / col;
        let scroll_row = if remain_row < row {
            remain_row
        } else {
            row
        };
        proof {
            assert(remain_row >= 0) by (nonlinear_arith)
                requires
                    remain >= 0,
                    col > 0,
                    remain_row as int == (remain as int + col as int - 1) / (col as int),
            ;
            assert(remain < row * col ==> remain_row <= row) by (nonlinear_arith)
                requires
                    col > 0,
                    row > 0,
                    remain >= 0,
                    remain_row as int == (remain as int + col as int - 1) / (col as int),
            ;
        }
        proof {
            assert(remain > 0 ==> remain_row >= 1) by (nonlinear_arith)
                requires
                    col > 0,
                    remain_row as int == (remain as int + col as int - 1) / (col as int),
            ;
        }
        row - scroll_row
    }
}

} // verus!
