//! Positions, bounds and sizes of the terminal grid.

use vstd::prelude::*;

verus! {

/// A column of the grid, counted from the left edge.
#[derive(Clone, Copy, Debug, Default, PartialEq, Eq, Structural)]
pub struct Column(pub usize);

/// A line of the grid; negative lines lie in the scrollback history.
#[derive(Clone, Copy, Debug, Default, PartialEq, Eq, Structural)]
pub struct Line(pub i32);

/// A position, with lines counted as `L` counts them.
#[derive(Clone, Copy, Debug, Default, PartialEq, Eq, Structural)]
pub struct Point<L> {
    pub line: L,
    pub column: Column,
}

impl<L> Point<L> {
    pub fn new(line: L, column: Column) -> (point: Self)
        ensures
            point.line == line,
            point.column == column,
    {
        Point { line, column }
    }
}

/// The span of a selection in grid coordinates, both ends included.
#[derive(Clone, Copy, Debug, PartialEq, Eq, Structural)]
pub struct SelectionRange {
    pub start: Point<Line>,
    pub end: Point<Line>,
    pub is_block: bool,
}

impl SelectionRange {
    /// Whether viewport line `line` lies within the selection when the viewport is scrolled up by
    /// `display_offset` lines.
    pub open spec fn covers(self, display_offset: int, line: int) -> bool {
        self.start.line.0 + display_offset <= line <= self.end.line.0 + display_offset
    }
}

/// The damaged columns of one line, `left` and `right` included.
#[derive(Clone, Copy, Debug, PartialEq, Eq, Structural)]
pub struct LineDamageBounds {
    pub line: usize,
    pub left: usize,
    pub right: usize,
}

impl LineDamageBounds {
    /// The bounds of a line without damage in a grid `num_cols` wide.
    pub open spec fn clean(line: usize, num_cols: usize) -> Self {
        LineDamageBounds { line, left: num_cols, right: 0 }
    }

    /// The bounds widened just enough to hold the columns `left` to `right`.
    pub open spec fn widened(self, left: usize, right: usize) -> Self {
        LineDamageBounds {
            line: self.line,
            left: if left < self.left { left } else { self.left },
            right: if right > self.right { right } else { self.right },
        }
    }

    /// Whether `column` lies within the damaged columns.
    pub open spec fn contains(self, column: usize) -> bool {
        self.left <= column <= self.right
    }

    pub fn new(line: usize, left: usize, right: usize) -> (bounds: Self)
        ensures
            bounds == (LineDamageBounds { line, left, right }),
    {
        LineDamageBounds { line, left, right }
    }

    /// A line without damage.
    pub fn undamaged(line: usize, num_cols: usize) -> (bounds: Self)
        ensures
            bounds == Self::clean(line, num_cols),
    {
        LineDamageBounds { line, left: num_cols, right: 0 }
    }

    /// Widen the bounds to hold the columns `left` to `right`.
    pub fn expand(&mut self, left: usize, right: usize)
        ensures
            *final(self) == old(self).widened(left, right),
    {
        if left < self.left {
            self.left = left;
        }
        if right > self.right {
            self.right = right;
        }
    }

    /// Whether any column of the line is damaged.
    pub fn is_damaged(&self) -> (damaged: bool)
        ensures
            damaged == (exists|column: usize| self.contains(column)),
    {
        let damaged = self.left <= self.right;
        assert(damaged ==> self.contains(self.left));
        damaged
    }
}

/// The size of the window and of the grid that it shows, in whole pixels and cells.
#[derive(Clone, Copy, Debug, Default, PartialEq, Eq, Structural)]
pub struct SizeInfo {
    pub width: u32,
    pub height: u32,
    pub cell_width: u32,
    pub cell_height: u32,
    pub padding_x: u32,
    pub padding_y: u32,
    pub screen_lines: usize,
    pub columns: usize,
}

/// `value` as an `i32`, held at the largest `i32` where it does not fit.
pub open spec fn saturated_i32(value: u32) -> i32 {
    if value > i32::MAX {
        i32::MAX
    } else {
        value as i32
    }
}

impl SizeInfo {
    /// Height of the window as a signed pixel count.
    pub fn height(&self) -> (height: i32)
        ensures
            height == saturated_i32(self.height),
    {
        if self.height > 0x7fff_ffff {
            i32::MAX
        } else {
            self.height as i32
        }
    }

    /// Width of the window as a signed pixel count.
    pub fn width(&self) -> (width: i32)
        ensures
            width == saturated_i32(self.width),
    {
        if self.width > 0x7fff_ffff {
            i32::MAX
        } else {
            self.width as i32
        }
    }
}

/// A length in pixels is kept where it fits, and held at the greatest number below it where not.
pub proof fn saturated_lengths_are_the_nearest(value: u32, other: i32)
    ensures
        0 <= saturated_i32(value) <= value,
        other <= value ==> other <= saturated_i32(value),
{
}

} // verus!
