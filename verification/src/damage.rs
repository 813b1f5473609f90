//! Damage tracking: which lines and which regions of the window have to be redrawn.

use crate::terminal::{saturated_i32, LineDamageBounds, Point, SelectionRange, SizeInfo};
use vstd::prelude::*;

verus! {

/// A damaged region, in pixels from the bottom left corner of the window.
#[derive(Clone, Copy, Debug, Default, PartialEq, Eq, Structural)]
pub struct Rect {
    pub x: i32,
    pub y: i32,
    pub width: i32,
    pub height: i32,
}

/// Damage of one frame.
#[derive(Debug)]
pub struct FrameDamage {
    /// The entire frame needs to be redrawn.
    pub full: bool,
    /// Damage of the terminal lines, one entry per line.
    pub lines: Vec<LineDamageBounds>,
    /// Damaged regions.
    pub rects: Vec<Rect>,
}

impl Default for FrameDamage {
    /// A frame of no lines without damage.
    fn default() -> (frame: Self)
        ensures
            !frame.full,
            frame.lines@ == Seq::<LineDamageBounds>::empty(),
            frame.rects@ == Seq::<Rect>::empty(),
    {
        FrameDamage { full: false, lines: Vec::new(), rects: Vec::new() }
    }
}

/// The lines of a frame without damage.
pub open spec fn clean_lines(num_lines: usize, num_cols: usize) -> Seq<LineDamageBounds> {
    Seq::new(num_lines as nat, |line: int| LineDamageBounds::clean(line as usize, num_cols))
}

/// Whether a cell lies in a range, in reading order, both ends included.
pub open spec fn in_range(start: Point<usize>, end: Point<usize>, line: int, column: usize) -> bool {
    &&& start.line < line || start.line == line && start.column.0 <= column
    &&& line < end.line || line == end.line && column <= end.column.0
}

impl FrameDamage {
    /// No damage at all in a grid of `num_lines` lines and `num_cols` columns.
    pub open spec fn is_clean(self, num_lines: usize, num_cols: usize) -> bool {
        &&& !self.full
        &&& self.lines@ == clean_lines(num_lines, num_cols)
        &&& self.rects@ == Seq::<Rect>::empty()
    }

    /// Whether any of the cells from `start` to `end`, in reading order, is damaged. The two end
    /// cells count whichever of them comes first.
    pub open spec fn touches(self, start: Point<usize>, end: Point<usize>) -> bool {
        ||| self.full
        ||| self.lines@[start.line as int].contains(start.column.0)
        ||| self.lines@[end.line as int].contains(end.column.0)
        ||| exists|line: int, column: usize|
            in_range(start, end, line, column) && #[trigger] self.lines@[line].contains(column)
    }

    /// Damage columns of a line.
    pub fn damage_line(&mut self, damage: LineDamageBounds)
        requires
            damage.line < old(self).lines@.len(),
        ensures
            final(self).full == old(self).full,
            final(self).rects == old(self).rects,
            final(self).lines@ == old(self).lines@.update(
                damage.line as int,
                old(self).lines@[damage.line as int].widened(damage.left, damage.right),
            ),
    {
        self.lines[damage.line].expand(damage.left, damage.right);
    }

    /// Damage a single cell.
    pub fn damage_point(&mut self, point: Point<usize>)
        requires
            point.line < old(self).lines@.len(),
        ensures
            final(self).full == old(self).full,
            final(self).rects == old(self).rects,
            final(self).lines@ == old(self).lines@.update(
                point.line as int,
                old(self).lines@[point.line as int].widened(point.column.0, point.column.0),
            ),
    {
        self.lines[point.line].expand(point.column.0, point.column.0);
    }

    /// Mark the frame as fully damaged.
    pub fn mark_fully_damaged(&mut self)
        ensures
            *final(self) == (FrameDamage { full: true, ..*old(self) }),
    {
        self.full = true;
    }

    /// Add a region given in viewport coordinates, which count from the top of the window.
    ///
    /// This covers elements outside of the grid, like the message bar.
    pub fn add_viewport_rect(
        &mut self,
        size_info: &SizeInfo,
        x: i32,
        y: i32,
        width: i32,
        height: i32,
    )
        requires
            i32::MIN <= saturated_i32(size_info.height) - y <= i32::MAX,
            i32::MIN <= saturated_i32(size_info.height) - y - height <= i32::MAX,
        ensures
            final(self).full == old(self).full,
            final(self).lines == old(self).lines,
            final(self).rects@ == old(self).rects@.push(
                viewport_region(*size_info, x, y, width, height),
            ),
    {
        let y = viewport_y_to_damage_y(size_info, y, height);
        self.rects.push(Rect { x, y, width, height });
    }

    /// Drop all damage and take on a new grid size.
    pub fn reset(&mut self, num_lines: usize, num_cols: usize)
        ensures
            final(self).is_clean(num_lines, num_cols),
    {
        self.full = false;
        self.rects.clear();
        self.lines.clear();
        self.lines.reserve(num_lines);
        for line in 0..num_lines
            invariant
                self.full == false,
                self.rects@ == Seq::<Rect>::empty(),
                self.lines@ == clean_lines(line, num_cols),
        {
            self.lines.push(LineDamageBounds::undamaged(line, num_cols));
            assert(self.lines@ =~= clean_lines((line + 1) as usize, num_cols));
        }
    }

    /// Check if a range of cells is damaged.
    pub fn intersects(&self, start: Point<usize>, end: Point<usize>) -> (hit: bool)
        requires
            start.line < self.lines@.len(),
            end.line < self.lines@.len(),
        ensures
            hit == self.touches(start, end),
    {
        let start_line = &self.lines[start.line];
        let end_line = &self.lines[end.line];
        if self.full || (start_line.left <= start.column.0 && start.column.0 <= start_line.right)
            || (end_line.left <= end.column.0 && end.column.0 <= end_line.right) {
            return true;
        }
        let count: usize = self.lines.len();
        let mut line: usize = start.line;
        while line <= end.line
            invariant
                start.line <= line,
                end.line < count == self.lines@.len(),
                forall|l: int, column: usize|
                    l < line && in_range(start, end, l, column)
                        ==> !#[trigger] self.lines@[l].contains(column),
            decreases end.line + 1 - line,
        {
            let bounds = &self.lines[line];
            let mut left: usize = bounds.left;
            if line == start.line && left < start.column.0 {
                left = start.column.0;
            }
            let mut right: usize = bounds.right;
            if line == end.line && right > end.column.0 {
                right = end.column.0;
            }
            if left <= right {
                assert(in_range(start, end, line as int, left));
                assert(self.lines@[line as int].contains(left));
                return true;
            }
            line += 1;
        }
        false
    }
}

/// Ranges are read like text: where the cells of a grid are numbered line by line, a range holds the
/// cells from the number of its start up to that of its end.
pub proof fn ranges_are_read_line_by_line(
    start: Point<usize>,
    end: Point<usize>,
    line: int,
    column: usize,
    columns: int,
)
    requires
        start.column.0 < columns,
        end.column.0 < columns,
        column < columns,
    ensures
        in_range(start, end, line, column) <==> start.line * columns + start.column.0 <= line
            * columns + column && line * columns + column <= end.line * columns + end.column.0,
{
    cells_are_numbered(start.line as int, start.column.0 as int, line, column as int, columns);
    cells_are_numbered(line, column as int, end.line as int, end.column.0 as int, columns);
}

proof fn cells_are_numbered(line: int, column: int, other: int, other_column: int, columns: int)
    requires
        0 <= column < columns,
        0 <= other_column < columns,
    ensures
        line * columns + column <= other * columns + other_column <==> line < other || line == other
            && column <= other_column,
{
    if line < other {
        assert((line + 1) * columns <= other * columns) by (nonlinear_arith)
            requires
                line + 1 <= other,
                columns > 0,
        ;
        assert((line + 1) * columns == line * columns + columns) by (nonlinear_arith);
    } else if line > other {
        assert((other + 1) * columns <= line * columns) by (nonlinear_arith)
            requires
                other + 1 <= line,
                columns > 0,
        ;
        assert((other + 1) * columns == other * columns + columns) by (nonlinear_arith);
    }
}

/// A cell that has been damaged is reported as damaged, and so is every range that holds it.
pub proof fn damaged_cell_is_reported(
    before: FrameDamage,
    after: FrameDamage,
    cell: Point<usize>,
    start: Point<usize>,
    end: Point<usize>,
)
    requires
        cell.line < before.lines@.len(),
        after.lines@ == before.lines@.update(
            cell.line as int,
            before.lines@[cell.line as int].widened(cell.column.0, cell.column.0),
        ),
        in_range(start, end, cell.line as int, cell.column.0),
    ensures
        after.touches(start, end),
        after.touches(cell, cell),
{
    assert(after.lines@[cell.line as int].contains(cell.column.0));
}

/// Damaging columns of a line never makes a damaged range look undamaged.
pub proof fn damage_accumulates(
    before: FrameDamage,
    after: FrameDamage,
    damage: LineDamageBounds,
    start: Point<usize>,
    end: Point<usize>,
)
    requires
        damage.line < before.lines@.len(),
        start.line < before.lines@.len(),
        end.line < before.lines@.len(),
        after.full == before.full,
        after.lines@ == before.lines@.update(
            damage.line as int,
            before.lines@[damage.line as int].widened(damage.left, damage.right),
        ),
        before.touches(start, end),
    ensures
        after.touches(start, end),
{
    if exists|line: int, column: usize|
        in_range(start, end, line, column) && #[trigger] before.lines@[line].contains(column) {
        let (line, column) = choose|line: int, column: usize|
            in_range(start, end, line, column) && #[trigger] before.lines@[line].contains(column);
        assert(after.lines@[line].contains(column));
    }
}

/// A frame without damage reports no range of cells within its columns as damaged.
pub proof fn clean_frame_reports_nothing(
    frame: FrameDamage,
    num_lines: usize,
    num_cols: usize,
    start: Point<usize>,
    end: Point<usize>,
)
    requires
        frame.is_clean(num_lines, num_cols),
        num_cols > 0,
        start.line < num_lines,
        end.line < num_lines,
    ensures
        !frame.touches(start, end),
        frame.rects@.len() == 0,
        frame.lines@.len() == num_lines,
        forall|i: int| 0 <= i < num_lines ==> (#[trigger] frame.lines@[i]).line == i,
{
}

/// The `y` coordinate in a [`Rect`] of what is `y` below the top of the window.
pub open spec fn damage_y(size_info: SizeInfo, y: int, height: int) -> int {
    saturated_i32(size_info.height) - y - height
}

/// The damaged region of what is at `x` and `y` in viewport coordinates.
pub open spec fn viewport_region(
    size_info: SizeInfo,
    x: i32,
    y: i32,
    width: i32,
    height: i32,
) -> Rect {
    Rect { x, y: damage_y(size_info, y as int, height as int) as i32, width, height }
}

/// Whether a pixel, counted from the bottom left corner of the window, lies in a region.
pub open spec fn holds_pixel(region: Rect, x: int, y: int) -> bool {
    region.x <= x < region.x + region.width && region.y <= y < region.y + region.height
}

/// A region damages the pixels that it has in the viewport and no others: a pixel that is so many
/// rows below the top of the window is damaged just where the region covers it there.
pub proof fn region_damages_its_pixels(
    size_info: SizeInfo,
    x: i32,
    y: i32,
    width: i32,
    height: i32,
    column: int,
    row: int,
)
    requires
        size_info.height <= i32::MAX,
        i32::MIN <= size_info.height - y - height <= i32::MAX,
    ensures
        holds_pixel(
            viewport_region(size_info, x, y, width, height),
            column,
            size_info.height - 1 - row,
        ) <==> x <= column < x + width && y <= row < y + height,
{
}

/// Converting a `y` coordinate twice gives it back: what lies above a region, its height and what lies
/// below it add up to the height of the window.
pub proof fn conversion_undoes_itself(size_info: SizeInfo, y: int, height: int)
    ensures
        damage_y(size_info, damage_y(size_info, y, height), height) == y,
        size_info.height <= i32::MAX ==> y + height + damage_y(size_info, y, height)
            == size_info.height,
{
}

/// What is damaged ahead is redrawn in the next frame and in no later one: going on to the next frame
/// keeps the damage that belongs to it, and the frame behind it starts without any.
pub proof fn damage_ahead_is_redrawn_next(
    before: DamageTracker,
    after: DamageTracker,
    start: Point<usize>,
    end: Point<usize>,
)
    requires
        before.swapped(after),
        before.columns > 0,
        start.line < before.screen_lines,
        end.line < before.screen_lines,
    ensures
        after.current.touches(start, end) <==> before.upcoming.touches(start, end),
        after.current.rects == before.upcoming.rects,
        !after.upcoming.touches(start, end),
        after.upcoming.rects@.len() == 0,
        after.upcoming.lines@.len() == before.screen_lines,
{
    clean_frame_reports_nothing(
        after.upcoming,
        before.screen_lines,
        before.columns,
        start,
        end,
    );
}

/// A grid of a new size is redrawn as a whole, once: every range of the frame is damaged, and none of
/// the frame behind it is.
pub proof fn resized_grid_is_redrawn(
    tracker: DamageTracker,
    screen_lines: usize,
    columns: usize,
    start: Point<usize>,
    end: Point<usize>,
)
    requires
        tracker.is_resized(screen_lines, columns),
        columns > 0,
        start.line < screen_lines,
        end.line < screen_lines,
    ensures
        tracker.current.touches(start, end),
        tracker.current.lines@.len() == screen_lines,
        tracker.current.rects@.len() == 0,
        !tracker.upcoming.touches(start, end),
        tracker.upcoming.lines@.len() == screen_lines,
        tracker.upcoming.rects@.len() == 0,
        tracker.screen_lines == screen_lines,
        tracker.columns == columns,
{
    clean_frame_reports_nothing(tracker.upcoming, screen_lines, columns, start, end);
}

/// Convert a viewport `y` coordinate, counted from the top, to one of a [`Rect`].
pub fn viewport_y_to_damage_y(size_info: &SizeInfo, y: i32, height: i32) -> (converted: i32)
    requires
        i32::MIN <= saturated_i32(size_info.height) - y <= i32::MAX,
        i32::MIN <= saturated_i32(size_info.height) - y - height <= i32::MAX,
    ensures
        converted == damage_y(*size_info, y as int, height as int),
{
    size_info.height() - y - height
}

/// Damage of the frame being built and of the one after it.
#[derive(Debug)]
pub struct DamageTracker {
    /// Position of the previously drawn Vi cursor.
    pub old_vi_cursor: Option<Point<usize>>,
    /// The location of the old selection.
    pub old_selection: Option<SelectionRange>,
    /// Highlight damage submitted for debugging.
    pub debug: bool,
    /// Damage of the frame being built.
    pub current: FrameDamage,
    /// Damage that already belongs to the frame after it.
    pub upcoming: FrameDamage,
    pub screen_lines: usize,
    pub columns: usize,
}

/// The bounds of a line after both cursor positions have been damaged on it.
pub open spec fn cursor_damage(
    bounds: LineDamageBounds,
    line: int,
    new: Option<Point<usize>>,
    old: Option<Point<usize>>,
) -> LineDamageBounds {
    let once = match new {
        Some(point) if point.line == line => bounds.widened(point.column.0, point.column.0),
        _ => bounds,
    };
    match old {
        Some(point) if point.line == line => once.widened(point.column.0, point.column.0),
        _ => once,
    }
}

/// Whether the lines `after` are the lines `before` once both cursor positions have been damaged.
pub open spec fn cursor_damaged(
    before: Seq<LineDamageBounds>,
    after: Seq<LineDamageBounds>,
    new: Option<Point<usize>>,
    old: Option<Point<usize>>,
) -> bool {
    &&& after.len() == before.len()
    &&& forall|line: int|
        0 <= line < before.len() ==> #[trigger] after[line] == cursor_damage(
            before[line],
            line,
            new,
            old,
        )
}

/// A cursor that moves is redrawn: the cell where it was drawn and the cell where it is now are damaged,
/// whichever of them there are. What was damaged stays so, other lines stay as they are, and on a
/// clean line nothing but the cursor is redrawn.
pub proof fn moved_cursor_is_redrawn(
    before: FrameDamage,
    after: FrameDamage,
    new: Option<Point<usize>>,
    old: Option<Point<usize>>,
    start: Point<usize>,
    end: Point<usize>,
    line: int,
    column: usize,
)
    requires
        cursor_damaged(before.lines@, after.lines@, new, old),
        after.full == before.full,
        new matches Some(point) ==> point.line < before.lines@.len(),
        old matches Some(point) ==> point.line < before.lines@.len(),
        start.line < before.lines@.len(),
        end.line < before.lines@.len(),
        0 <= line < before.lines@.len(),
    ensures
        old matches Some(point) ==> after.touches(point, point) && after.lines@[point.line as int].left
            <= point.column.0 <= after.lines@[point.line as int].right,
        new matches Some(point) ==> after.touches(point, point) && after.lines@[point.line as int].left
            <= point.column.0 <= after.lines@[point.line as int].right,
        before.touches(start, end) ==> after.touches(start, end),
        (new is None || new->0.line != line) && (old is None || old->0.line != line)
            ==> after.lines@[line] == before.lines@[line],
        before.lines@[line].left > before.lines@[line].right && before.lines@[line].right == 0 && (
        new matches Some(point) ==> point.column.0 < before.lines@[line].left) && (
        old matches Some(point) ==> point.column.0 < before.lines@[line].left)
            && after.lines@[line].contains(column) ==> {
            let on_line = |cursor: Option<Point<usize>>|
                cursor is Some && cursor->0.line == line;
            ||| on_line(new) && on_line(old)
            ||| on_line(new) && new->0.column.0 == column
            ||| on_line(old) && old->0.column.0 == column
        },
{
    assert(after.lines@[line] == cursor_damage(before.lines@[line], line, new, old));
    if let Some(point) = new {
        assert(after.lines@[point.line as int].contains(point.column.0));
    }
    if let Some(point) = old {
        assert(after.lines@[point.line as int].contains(point.column.0));
    }
    if exists|l: int, c: usize|
        in_range(start, end, l, c) && #[trigger] before.lines@[l].contains(c) {
        let (l, c) = choose|l: int, c: usize|
            in_range(start, end, l, c) && #[trigger] before.lines@[l].contains(c);
        assert(after.lines@[l].contains(c));
    }
    assert(after.lines@[start.line as int] == cursor_damage(
        before.lines@[start.line as int],
        start.line as int,
        new,
        old,
    ));
    assert(after.lines@[end.line as int] == cursor_damage(
        before.lines@[end.line as int],
        end.line as int,
        new,
        old,
    ));
}

/// The bounds of a line after a selection has changed.
pub open spec fn selection_damage(
    bounds: LineDamageBounds,
    line: int,
    columns: usize,
    new: Option<SelectionRange>,
    old: Option<SelectionRange>,
    display_offset: int,
) -> LineDamageBounds {
    if selected(new, display_offset, line) || selected(old, display_offset, line) {
        bounds.widened(0, (columns - 1) as usize)
    } else {
        bounds
    }
}

/// A selection that changes is redrawn: every cell of a visible line that was selected, and of one that
/// is selected now, is damaged. Lines without any of the two stay as they are.
pub proof fn changed_selection_is_redrawn(
    bounds: LineDamageBounds,
    line: int,
    columns: usize,
    new: Option<SelectionRange>,
    old: Option<SelectionRange>,
    display_offset: int,
    column: usize,
)
    requires
        column < columns,
    ensures
        ({
            let after = selection_damage(bounds, line, columns, new, old, display_offset);
            let was_selected = old is Some && old->0.start.line.0 + display_offset <= line && line
                <= old->0.end.line.0 + display_offset;
            let is_selected = new is Some && new->0.start.line.0 + display_offset <= line && line
                <= new->0.end.line.0 + display_offset;
            &&& was_selected || is_selected ==> after.left <= column <= after.right
            &&& !was_selected && !is_selected ==> after == bounds
            &&& bounds.contains(column) ==> after.contains(column)
        }),
{
}

/// Damage covers no more than it must: on a clean line just the columns that are damaged, and on any
/// other line what lies between the old and the new damage at most.
pub proof fn damage_is_tight(
    bounds: LineDamageBounds,
    left: usize,
    right: usize,
    line: usize,
    num_cols: usize,
    column: usize,
)
    requires
        left <= right < num_cols,
    ensures
        LineDamageBounds::clean(line, num_cols).widened(left, right).contains(column) <==> left
            <= column <= right,
        bounds.contains(column) || left <= column <= right ==> bounds.widened(left, right).contains(
            column,
        ),
        bounds.widened(left, right).contains(column) ==> (bounds.left <= column || left <= column)
            && (column <= bounds.right || column <= right),
{
}

/// Whether a selection covers a viewport line.
pub open spec fn selected(selection: Option<SelectionRange>, display_offset: int, line: int) -> bool {
    selection matches Some(range) && range.covers(display_offset, line)
}

/// Whether a selection covers no viewport line.
pub open spec fn is_unseen(
    selection: Option<SelectionRange>,
    display_offset: int,
    screen_lines: usize,
) -> bool {
    forall|line: int|
        0 <= line < screen_lines ==> !#[trigger] selected(selection, display_offset, line)
}

impl DamageTracker {
    /// Both frames hold one entry per line.
    pub open spec fn well_formed(self) -> bool {
        &&& self.current.lines@.len() == self.screen_lines
        &&& self.upcoming.lines@.len() == self.screen_lines
    }

    pub fn new(screen_lines: usize, columns: usize) -> (tracker: Self)
        ensures
            tracker.well_formed(),
            tracker.is_resized(screen_lines, columns),
            tracker.old_vi_cursor is None,
            tracker.old_selection is None,
            !tracker.debug,
    {
        let mut tracker = DamageTracker {
            columns,
            screen_lines,
            debug: false,
            old_vi_cursor: None,
            old_selection: None,
            current: FrameDamage::default(),
            upcoming: FrameDamage::default(),
        };
        tracker.resize(screen_lines, columns);
        tracker
    }

    /// Damage of the frame being built.
    #[must_use]
    pub fn frame(&mut self) -> (frame: &mut FrameDamage)
        ensures
            *frame == old(self).current,
            final(self).current == *final(frame),
            final(self).upcoming == old(self).upcoming,
            final(self).screen_lines == old(self).screen_lines,
            final(self).columns == old(self).columns,
            final(self).old_vi_cursor == old(self).old_vi_cursor,
            final(self).old_selection == old(self).old_selection,
            final(self).debug == old(self).debug,
    {
        &mut self.current
    }

    /// Damage of the frame after the one being built.
    #[must_use]
    pub fn next_frame(&mut self) -> (frame: &mut FrameDamage)
        ensures
            *frame == old(self).upcoming,
            final(self).upcoming == *final(frame),
            final(self).current == old(self).current,
            final(self).screen_lines == old(self).screen_lines,
            final(self).columns == old(self).columns,
            final(self).old_vi_cursor == old(self).old_vi_cursor,
            final(self).old_selection == old(self).old_selection,
            final(self).debug == old(self).debug,
    {
        &mut self.upcoming
    }

    /// Whether `after` is the tracker once it has gone on to the next frame.
    pub open spec fn swapped(self, after: Self) -> bool {
        &&& after.current == self.upcoming
        &&& after.upcoming.is_clean(self.screen_lines, self.columns)
    }

    /// Whether the tracker has just taken on a new grid size.
    pub open spec fn is_resized(self, screen_lines: usize, columns: usize) -> bool {
        &&& self.screen_lines == screen_lines
        &&& self.columns == columns
        &&& self.current.full
        &&& self.current.lines@ == clean_lines(screen_lines, columns)
        &&& self.current.rects@ == Seq::<Rect>::empty()
        &&& self.upcoming.is_clean(screen_lines, columns)
    }

    /// Advance to the next frame, dropping the damage of the active one.
    pub fn swap_damage(&mut self)
        ensures
            old(self).swapped(*final(self)),
            final(self).screen_lines == old(self).screen_lines,
            final(self).columns == old(self).columns,
            final(self).old_vi_cursor == old(self).old_vi_cursor,
            final(self).old_selection == old(self).old_selection,
            final(self).debug == old(self).debug,
            old(self).well_formed() ==> final(self).well_formed(),
    {
        self.current.reset(self.screen_lines, self.columns);
        std::mem::swap(&mut self.current, &mut self.upcoming);
    }

    /// Take on a new grid size; the frame being built is then damaged as a whole.
    pub fn resize(&mut self, screen_lines: usize, columns: usize)
        ensures
            final(self).well_formed(),
            final(self).is_resized(screen_lines, columns),
            final(self).old_vi_cursor == old(self).old_vi_cursor,
            final(self).old_selection == old(self).old_selection,
            final(self).debug == old(self).debug,
    {
        self.screen_lines = screen_lines;
        self.columns = columns;
        self.current.reset(screen_lines, columns);
        self.upcoming.reset(screen_lines, columns);
        self.current.full = true;
    }

    /// Damage the old and the new position of the Vi cursor.
    pub fn damage_vi_cursor(&mut self, vi_cursor: Option<Point<usize>>)
        requires
            old(self).well_formed(),
            !old(self).current.full ==> (vi_cursor matches Some(point) ==> point.line
                < old(self).screen_lines),
            !old(self).current.full ==> (old(self).old_vi_cursor matches Some(point)
                ==> point.line < old(self).screen_lines),
        ensures
            final(self).well_formed(),
            final(self).old_vi_cursor == vi_cursor,
            final(self).old_selection == old(self).old_selection,
            final(self).debug == old(self).debug,
            final(self).screen_lines == old(self).screen_lines,
            final(self).columns == old(self).columns,
            final(self).upcoming == old(self).upcoming,
            final(self).current.full == old(self).current.full,
            final(self).current.rects == old(self).current.rects,
            old(self).current.full ==> final(self).current == old(self).current,
            !old(self).current.full ==> cursor_damaged(
                old(self).current.lines@,
                final(self).current.lines@,
                vi_cursor,
                old(self).old_vi_cursor,
            ),
            old(self).old_vi_cursor matches Some(point) ==> final(self).current.touches(point, point),
            vi_cursor matches Some(point) ==> final(self).current.touches(point, point),
    {
        let previous = self.old_vi_cursor;
        self.old_vi_cursor = vi_cursor;

        if self.current.full {
            return;
        }
        if let Some(vi_cursor) = vi_cursor {
            self.current.damage_point(vi_cursor);
        }
        if let Some(previous) = previous {
            self.current.damage_point(previous);
        }
    }

    /// Damage the lines of the old and of the new selection, unless they are the same.
    pub fn damage_selection(&mut self, selection: Option<SelectionRange>, display_offset: usize)
        requires
            old(self).well_formed(),
            old(self).columns > 0 || old(self).current.full || selection == old(self).old_selection
                || is_unseen(selection, display_offset as int, old(self).screen_lines) && is_unseen(
                old(self).old_selection,
                display_offset as int,
                old(self).screen_lines,
            ),
        ensures
            final(self).well_formed(),
            final(self).old_selection == selection,
            final(self).old_vi_cursor == old(self).old_vi_cursor,
            final(self).debug == old(self).debug,
            final(self).screen_lines == old(self).screen_lines,
            final(self).columns == old(self).columns,
            final(self).upcoming == old(self).upcoming,
            final(self).current.full == old(self).current.full,
            final(self).current.rects == old(self).current.rects,
            old(self).current.full || selection == old(self).old_selection ==> final(self).current == old(self).current,
            !old(self).current.full && selection != old(self).old_selection
                ==> forall|line: int|
                0 <= line < old(self).screen_lines ==> #[trigger] final(self).current.lines@[line]
                    == selection_damage(
                    old(self).current.lines@[line],
                    line,
                    old(self).columns,
                    selection,
                    old(self).old_selection,
                    display_offset as int,
                ),
    {
        let previous = self.old_selection;
        self.old_selection = selection;

        if self.current.full || previous == selection {
            return;
        }
        if let Some(selection) = selection {
            self.damage_range(selection, display_offset);
        }
        if let Some(previous) = previous {
            self.damage_range(previous, display_offset);
        }
    }

    /// Damage the visible lines of one selection over their whole width.
    fn damage_range(&mut self, selection: SelectionRange, display_offset: usize)
        requires
            old(self).well_formed(),
            old(self).columns > 0 || is_unseen(
                Some(selection),
                display_offset as int,
                old(self).screen_lines,
            ),
        ensures
            final(self).well_formed(),
            final(self).old_selection == old(self).old_selection,
            final(self).old_vi_cursor == old(self).old_vi_cursor,
            final(self).debug == old(self).debug,
            final(self).screen_lines == old(self).screen_lines,
            final(self).columns == old(self).columns,
            final(self).upcoming == old(self).upcoming,
            final(self).current.full == old(self).current.full,
            final(self).current.rects == old(self).current.rects,
            forall|line: int|
                0 <= line < old(self).screen_lines ==> #[trigger] final(self).current.lines@[line] == if selection.covers(display_offset as int, line) {
                    old(self).current.lines@[line].widened(
                        0,
                        (old(self).columns - 1) as usize,
                    )
                } else {
                    old(self).current.lines@[line]
                },
    {
        let first: i128 = selection.start.line.0 as i128 + display_offset as i128;
        let last: i128 = selection.end.line.0 as i128 + display_offset as i128;
        let last_visible: i128 = self.screen_lines as i128 - 1;

        // Ignore invisible selections.
        if self.screen_lines == 0 || last < 0 || first > last_visible {
            return;
        }
        let start: usize = if first < 0 { 0 } else { first as usize };
        let end: usize = if last < last_visible { last as usize } else { self.screen_lines - 1 };
        let ghost right = (self.columns - 1) as usize;
        let mut line: usize = start;
        assert(start <= end ==> selected(Some(selection), display_offset as int, start as int));
        while line <= end
            invariant
                start <= line,
                line <= end + 1 || line == start,
                end < self.screen_lines,
                self.well_formed(),
                right == (self.columns - 1) as usize,
                self.columns > 0 || start > end,
                self.columns == old(self).columns,
                self.screen_lines == old(self).screen_lines,
                self.old_selection == old(self).old_selection,
                self.old_vi_cursor == old(self).old_vi_cursor,
                self.debug == old(self).debug,
                self.upcoming == old(self).upcoming,
                self.current.full == old(self).current.full,
                self.current.rects == old(self).current.rects,
                forall|l: int|
                    0 <= l < self.screen_lines ==> #[trigger] self.current.lines@[l] == if start
                        <= l < line {
                        old(self).current.lines@[l].widened(0, right)
                    } else {
                        old(self).current.lines@[l]
                    },
            decreases end + 1 - line,
        {
            let right: usize = self.columns - 1;
            self.current.lines[line].expand(0, right);
            line += 1;
        }
    }
}

} // verus!
