//! Lines under and through the text, and the order in which rectangles are drawn.

use crate::renderer::content::{Flags, RenderableCell, Rgb};
use crate::terminal::{Column, Point};
use vstd::prelude::*;

verus! {

/// How a rectangle is filled.
#[derive(Clone, Copy, Debug, PartialEq, Eq, Structural)]
pub enum RectKind {
    Normal,
    Undercurl,
    DottedUnderline,
    DashedUnderline,
    NumKinds,
}

impl RectKind {
    /// The number of the kind, as the shader knows it.
    pub open spec fn shader_number(self) -> int {
        match self {
            RectKind::Normal => 0,
            RectKind::Undercurl => 1,
            RectKind::DottedUnderline => 2,
            RectKind::DashedUnderline => 3,
            RectKind::NumKinds => 4,
        }
    }

    /// The number of the kind, as the shader knows it.
    pub fn number(self) -> (number: u32)
        ensures
            number == self.shader_number(),
    {
        match self {
            RectKind::Normal => 0,
            RectKind::Undercurl => 1,
            RectKind::DottedUnderline => 2,
            RectKind::DashedUnderline => 3,
            RectKind::NumKinds => 4,
        }
    }
}

/// The attributes that draw a line.
#[derive(Clone, Copy, Debug, PartialEq, Eq, Structural)]
pub enum LineFlag {
    Underline,
    DoubleUnderline,
    Strikeout,
    Undercurl,
    DottedUnderline,
    DashedUnderline,
}

impl LineFlag {
    /// Whether an attribute is set.
    pub open spec fn set_in(self, flags: Flags) -> bool {
        match self {
            LineFlag::Underline => flags.underline,
            LineFlag::DoubleUnderline => flags.double_underline,
            LineFlag::Strikeout => flags.strikeout,
            LineFlag::Undercurl => flags.undercurl,
            LineFlag::DottedUnderline => flags.dotted_underline,
            LineFlag::DashedUnderline => flags.dashed_underline,
        }
    }

    /// Whether an attribute is set.
    fn is_set(self, flags: Flags) -> (set: bool)
        ensures
            set == self.set_in(flags),
    {
        match self {
            LineFlag::Underline => flags.underline,
            LineFlag::DoubleUnderline => flags.double_underline,
            LineFlag::Strikeout => flags.strikeout,
            LineFlag::Undercurl => flags.undercurl,
            LineFlag::DottedUnderline => flags.dotted_underline,
            LineFlag::DashedUnderline => flags.dashed_underline,
        }
    }
}

/// A line along cells, both ends included.
#[derive(Clone, Copy, Debug, PartialEq, Eq, Structural)]
pub struct RenderLine {
    pub start: Point<usize>,
    pub end: Point<usize>,
    pub color: Rgb,
}

/// Where a stroke lies relative to the baseline, and how thick it is.
#[derive(Clone, Copy, Debug, PartialEq, Eq, Structural)]
pub enum Stroke {
    /// The upper of two underlines: a quarter of the descent below, as thick as an underline.
    UpperUnderline,
    /// The lower of two underlines: three quarters of the descent below, as thick as an underline.
    LowerUnderline,
    /// At the position and with the thickness of underlines.
    Underline,
    /// Over the whole descent.
    Descent,
    /// At the position and with the thickness of strikeouts.
    Strikeout,
}

/// A piece of a line that lies within one line of the grid.
#[derive(Clone, Copy, Debug, PartialEq, Eq, Structural)]
pub struct LineRect {
    pub start: Point<usize>,
    pub end: Point<usize>,
    pub color: Rgb,
    pub stroke: Stroke,
    pub kind: RectKind,
}

/// The strokes of an attribute, each with the way it is filled.
pub open spec fn strokes(flag: LineFlag) -> Seq<(Stroke, RectKind)> {
    match flag {
        // Each of two underlines has half of the descent available.
        LineFlag::DoubleUnderline => seq![
            (Stroke::UpperUnderline, RectKind::Normal),
            (Stroke::LowerUnderline, RectKind::Normal),
        ],
        LineFlag::Undercurl => seq![(Stroke::Descent, RectKind::Undercurl)],
        LineFlag::Underline => seq![(Stroke::Underline, RectKind::Normal)],
        LineFlag::DottedUnderline => seq![(Stroke::Descent, RectKind::DottedUnderline)],
        LineFlag::DashedUnderline => seq![(Stroke::Underline, RectKind::DashedUnderline)],
        LineFlag::Strikeout => seq![(Stroke::Strikeout, RectKind::Normal)],
    }
}

/// The pieces between two cells of one line.
pub open spec fn pieces(flag: LineFlag, start: Point<usize>, end: Point<usize>, color: Rgb) -> Seq<
    LineRect,
> {
    strokes(flag).map_values(
        |stroke: (Stroke, RectKind)|
            LineRect { start, end, color, stroke: stroke.0, kind: stroke.1 },
    )
}

impl RenderLine {
    /// The pieces of a line that starts at `start` and ends where `self` does, in a grid whose
    /// last column is `last_column`.
    pub open spec fn pieces_from(
        self,
        flag: LineFlag,
        start: Point<usize>,
        last_column: usize,
    ) -> Seq<LineRect>
        decreases self.end.line - start.line,
    {
        if start.line < self.end.line {
            pieces(
                flag,
                start,
                Point { line: start.line, column: Column(last_column) },
                self.color,
            ) + self.pieces_from(
                flag,
                Point { line: (start.line + 1) as usize, column: Column(0) },
                last_column,
            )
        } else {
            pieces(flag, start, self.end, self.color)
        }
    }

    /// The rectangles of a line: it is cut at the ends of the lines of the grid.
    pub fn rects(&self, flag: LineFlag, columns: usize) -> (rects: Vec<LineRect>)
        requires
            self.start.line < self.end.line ==> columns > 0,
        ensures
            rects@ == self.pieces_from(flag, self.start, (columns - 1) as usize),
    {
        let ghost last_column = (columns - 1) as usize;
        let mut rects: Vec<LineRect> = Vec::new();
        let mut start = self.start;
        let ghost all = self.pieces_from(flag, self.start, last_column);
        assert(rects@ + all =~= all);
        while start.line < self.end.line
            invariant
                start.line < self.end.line ==> columns > 0,
                last_column == (columns - 1) as usize,
                rects@ + self.pieces_from(flag, start, last_column) == all,
            decreases self.end.line - start.line,
        {
            let last_column: usize = columns - 1;
            let end = Point::new(start.line, Column(last_column));
            let ghost before = rects@;
            RenderLine::push_rects(&mut rects, flag, start, end, self.color);
            let next = Point::new(start.line + 1, Column(0));
            assert(rects@ + self.pieces_from(flag, next, last_column) =~= before
                + self.pieces_from(flag, start, last_column));
            start = next;
        }
        RenderLine::push_rects(&mut rects, flag, start, self.end, self.color);
        rects
    }

    /// Push all rects required to draw the cell's line.
    fn push_rects(
        rects: &mut Vec<LineRect>,
        flag: LineFlag,
        start: Point<usize>,
        end: Point<usize>,
        color: Rgb,
    )
        ensures
            final(rects)@ == old(rects)@ + pieces(flag, start, end, color),
    {
        let ghost before = rects@;
        let (stroke, kind) = match flag {
            LineFlag::DoubleUnderline => {
                rects.push(
                    LineRect {
                        start,
                        end,
                        color,
                        stroke: Stroke::UpperUnderline,
                        kind: RectKind::Normal,
                    },
                );
                (Stroke::LowerUnderline, RectKind::Normal)
            },
            LineFlag::Undercurl => (Stroke::Descent, RectKind::Undercurl),
            LineFlag::Underline => (Stroke::Underline, RectKind::Normal),
            LineFlag::DottedUnderline => (Stroke::Descent, RectKind::DottedUnderline),
            LineFlag::DashedUnderline => (Stroke::Underline, RectKind::DashedUnderline),
            LineFlag::Strikeout => (Stroke::Strikeout, RectKind::Normal),
        };
        rects.push(LineRect { start, end, color, stroke, kind });
        assert(rects@ =~= before + pieces(flag, start, end, color));
    }
}

/// The color of the line that an attribute draws. The underline color escape does not apply to
/// strikeout.
pub open spec fn line_color(cell: RenderableCell, flag: LineFlag) -> Rgb {
    if flag is Strikeout {
        cell.fg
    } else {
        cell.underline
    }
}

/// The last cell that a line through a cell covers: a wide character has a spacer.
pub open spec fn line_end(cell: RenderableCell) -> Point<usize> {
    if cell.flags.wide_char {
        Point { line: cell.point.line, column: Column((cell.point.column.0 + 1) as usize) }
    } else {
        cell.point
    }
}

/// Whether a cell goes on with a line: it follows the last cell of it and has the same color.
pub open spec fn goes_on(line: RenderLine, cell: RenderableCell, flag: LineFlag) -> bool {
    &&& line_color(cell, flag) == line.color
    &&& cell.point.column.0 == line.end.column.0 + 1
    &&& cell.point.line == line.end.line
}

/// The lines of an attribute with another cell.
pub open spec fn with_cell(lines: Seq<RenderLine>, cell: RenderableCell, flag: LineFlag) -> Seq<
    RenderLine,
> {
    if !flag.set_in(cell.flags) {
        lines
    } else if lines.len() > 0 && goes_on(lines.last(), cell, flag) {
        lines.update(
            lines.len() - 1,
            RenderLine {
                start: lines.last().start,
                end: line_end(cell),
                color: lines.last().color,
            },
        )
    } else {
        lines.push(
            RenderLine {
                start: cell.point,
                end: line_end(cell),
                color: line_color(cell, flag),
            },
        )
    }
}

/// Update the lines of an attribute with the next cell.
fn update_flag(lines: &mut Vec<RenderLine>, cell: &RenderableCell, flag: LineFlag)
    requires
        cell.flags.wide_char ==> cell.point.column.0 < usize::MAX,
    ensures
        final(lines)@ == with_cell(old(lines)@, *cell, flag),
{
    if !flag.is_set(cell.flags) {
        return;
    }
    let color = match flag {
        LineFlag::Strikeout => cell.fg,
        _ => cell.underline,
    };
    let mut end = cell.point;
    if cell.flags.wide_char {
        end = Point::new(end.line, Column(end.column.0 + 1));
    }
    // Check if there's an active line.
    let count: usize = lines.len();
    if count > 0 {
        let line = lines[count - 1];
        if color == line.color && cell.point.column.0 > 0 && cell.point.column.0 - 1
            == line.end.column.0 && cell.point.line == line.end.line {
            // Update the length of the line.
            lines.set(count - 1, RenderLine { start: line.start, end, color: line.color });
            return;
        }
    }
    // Start new line if there currently is none.
    lines.push(RenderLine { start: cell.point, end, color });
}

/// Lines for underline and strikeout.
#[derive(Debug)]
pub struct RenderLines {
    pub underline: Vec<RenderLine>,
    pub double_underline: Vec<RenderLine>,
    pub strikeout: Vec<RenderLine>,
    pub undercurl: Vec<RenderLine>,
    pub dotted_underline: Vec<RenderLine>,
    pub dashed_underline: Vec<RenderLine>,
}

/// The pieces of the first `count` lines of an attribute.
pub open spec fn line_pieces(
    lines: Seq<RenderLine>,
    flag: LineFlag,
    last_column: usize,
    count: int,
) -> Seq<LineRect>
    decreases count,
{
    if count <= 0 {
        Seq::empty()
    } else {
        line_pieces(lines, flag, last_column, count - 1) + lines[count - 1].pieces_from(
            flag,
            lines[count - 1].start,
            last_column,
        )
    }
}

/// Whether no line goes on to another line of the grid.
pub open spec fn stay_on_their_lines(lines: Seq<RenderLine>) -> bool {
    forall|i: int| 0 <= i < lines.len() ==> (#[trigger] lines[i]).start.line >= lines[i].end.line
}

/// Append the pieces of the lines of an attribute.
fn push_lines(rects: &mut Vec<LineRect>, lines: &Vec<RenderLine>, flag: LineFlag, columns: usize)
    requires
        columns > 0 || stay_on_their_lines(lines@),
    ensures
        final(rects)@ == old(rects)@ + line_pieces(
            lines@,
            flag,
            (columns - 1) as usize,
            lines@.len() as int,
        ),
{
    let ghost last_column = (columns - 1) as usize;
    let mut index: usize = 0;
    assert(rects@ =~= old(rects)@ + line_pieces(lines@, flag, last_column, 0));
    while index < lines.len()
        invariant
            columns > 0 || stay_on_their_lines(lines@),
            last_column == (columns - 1) as usize,
            index <= lines@.len(),
            rects@ == old(rects)@ + line_pieces(lines@, flag, last_column, index as int),
        decreases lines@.len() - index,
    {
        let mut own = lines[index].rects(flag, columns);
        rects.append(&mut own);
        index += 1;
        assert(rects@ =~= old(rects)@ + line_pieces(lines@, flag, last_column, index as int));
    }
}

impl RenderLines {
    /// The lines of an attribute.
    pub open spec fn lines(self, flag: LineFlag) -> Seq<RenderLine> {
        match flag {
            LineFlag::Underline => self.underline@,
            LineFlag::DoubleUnderline => self.double_underline@,
            LineFlag::Strikeout => self.strikeout@,
            LineFlag::Undercurl => self.undercurl@,
            LineFlag::DottedUnderline => self.dotted_underline@,
            LineFlag::DashedUnderline => self.dashed_underline@,
        }
    }

    /// No lines.
    pub fn new() -> (lines: RenderLines)
        ensures
            forall|flag: LineFlag| (#[trigger] lines.lines(flag)).len() == 0,
    {
        RenderLines {
            underline: Vec::new(),
            double_underline: Vec::new(),
            strikeout: Vec::new(),
            undercurl: Vec::new(),
            dotted_underline: Vec::new(),
            dashed_underline: Vec::new(),
        }
    }

    /// The pieces of all lines of an attribute, in a grid that is `columns` wide.
    pub open spec fn flag_pieces(self, flag: LineFlag, columns: usize) -> Seq<LineRect> {
        line_pieces(
            self.lines(flag),
            flag,
            (columns - 1) as usize,
            self.lines(flag).len() as int,
        )
    }

    /// The pieces of all lines of all attributes, in a grid that is `columns` wide.
    pub open spec fn all_pieces(self, columns: usize) -> Seq<LineRect> {
        self.flag_pieces(LineFlag::Underline, columns) + self.flag_pieces(
            LineFlag::DoubleUnderline,
            columns,
        ) + self.flag_pieces(LineFlag::Strikeout, columns) + self.flag_pieces(
            LineFlag::Undercurl,
            columns,
        ) + self.flag_pieces(LineFlag::DottedUnderline, columns) + self.flag_pieces(
            LineFlag::DashedUnderline,
            columns,
        )
    }

    /// The rectangles of all lines.
    pub fn rects(&self, columns: usize) -> (rects: Vec<LineRect>)
        requires
            columns > 0 || forall|flag: LineFlag| stay_on_their_lines(#[trigger] self.lines(flag)),
        ensures
            rects@ == self.all_pieces(columns),
    {
        let mut rects: Vec<LineRect> = Vec::new();
        assert(columns == 0 ==> stay_on_their_lines(self.lines(LineFlag::Underline))
            && stay_on_their_lines(self.lines(LineFlag::DoubleUnderline)) && stay_on_their_lines(
            self.lines(LineFlag::Strikeout),
        ) && stay_on_their_lines(self.lines(LineFlag::Undercurl)) && stay_on_their_lines(
            self.lines(LineFlag::DottedUnderline),
        ) && stay_on_their_lines(self.lines(LineFlag::DashedUnderline)));
        push_lines(&mut rects, &self.underline, LineFlag::Underline, columns);
        push_lines(&mut rects, &self.double_underline, LineFlag::DoubleUnderline, columns);
        push_lines(&mut rects, &self.strikeout, LineFlag::Strikeout, columns);
        push_lines(&mut rects, &self.undercurl, LineFlag::Undercurl, columns);
        push_lines(&mut rects, &self.dotted_underline, LineFlag::DottedUnderline, columns);
        push_lines(&mut rects, &self.dashed_underline, LineFlag::DashedUnderline, columns);
        rects
    }

    /// Update the stored lines with the next cell info.
    pub fn update(&mut self, cell: &RenderableCell)
        requires
            cell.flags.wide_char ==> cell.point.column.0 < usize::MAX,
        ensures
            forall|flag: LineFlag| #[trigger]
                final(self).lines(flag) == with_cell(old(self).lines(flag), *cell, flag),
    {
        update_flag(&mut self.underline, cell, LineFlag::Underline);
        update_flag(&mut self.double_underline, cell, LineFlag::DoubleUnderline);
        update_flag(&mut self.strikeout, cell, LineFlag::Strikeout);
        update_flag(&mut self.undercurl, cell, LineFlag::Undercurl);
        update_flag(&mut self.dotted_underline, cell, LineFlag::DottedUnderline);
        update_flag(&mut self.dashed_underline, cell, LineFlag::DashedUnderline);
        assert forall|flag: LineFlag| #[trigger]
            self.lines(flag) == with_cell(old(self).lines(flag), *cell, flag) by {
            match flag {
                LineFlag::Underline => {},
                LineFlag::DoubleUnderline => {},
                LineFlag::Strikeout => {},
                LineFlag::Undercurl => {},
                LineFlag::DottedUnderline => {},
                LineFlag::DashedUnderline => {},
            }
        }
    }
}

/// Whether a line covers a cell, where it does not leave its line of the grid.
pub open spec fn line_covers(line: RenderLine, point: Point<usize>) -> bool {
    &&& line.start.line == point.line
    &&& line.end.line == point.line
    &&& line.start.column.0 <= point.column.0 <= line.end.column.0
}

/// Whether a line does not leave its line of the grid nor runs backwards.
pub open spec fn is_straight(line: RenderLine) -> bool {
    line.start.line == line.end.line && line.start.column.0 <= line.end.column.0
}

/// Every cell with an attribute gets its line: after an update some line of the attribute covers
/// the cell, in the color of the cell, what was covered stays so, and lines never leave their line
/// of the grid.
pub proof fn updated_lines_cover_the_cell(
    lines: Seq<RenderLine>,
    cell: RenderableCell,
    flag: LineFlag,
)
    requires
        flag.set_in(cell.flags),
        cell.flags.wide_char ==> cell.point.column.0 < usize::MAX,
        forall|i: int| 0 <= i < lines.len() ==> is_straight(#[trigger] lines[i]),
    ensures
        with_cell(lines, cell, flag).len() > 0,
        line_covers(with_cell(lines, cell, flag).last(), cell.point),
        with_cell(lines, cell, flag).last().color == line_color(cell, flag),
        // The underline color escape does not apply to strikeout.
        with_cell(lines, cell, flag).last().color == if flag is Strikeout {
            cell.fg
        } else {
            cell.underline
        },
        // A wide character is covered with its spacer, and nothing right of the cell is.
        with_cell(lines, cell, flag).last().end.line == cell.point.line,
        with_cell(lines, cell, flag).last().end.column.0 == cell.point.column.0
            + if cell.flags.wide_char {
            1int
        } else {
            0
        },
        // A line goes on only where the cell follows it directly and has its color; else another
        // one begins with the cell.
        with_cell(lines, cell, flag).len() == lines.len() <==> lines.len() > 0
            && lines.last().end.line == cell.point.line && lines.last().end.column.0 + 1
            == cell.point.column.0 && lines.last().color == if flag is Strikeout {
            cell.fg
        } else {
            cell.underline
        },
        with_cell(lines, cell, flag).len() != lines.len() ==> with_cell(lines, cell, flag).len()
            == lines.len() + 1 && with_cell(lines, cell, flag).last().start == cell.point,
        forall|i: int, point: Point<usize>|
            0 <= i < lines.len() && #[trigger] line_covers(lines[i], point) ==> line_covers(
                with_cell(lines, cell, flag)[i],
                point,
            ) && with_cell(lines, cell, flag)[i].color == lines[i].color,
        forall|i: int|
            0 <= i < with_cell(lines, cell, flag).len() ==> is_straight(
                #[trigger] with_cell(lines, cell, flag)[i],
            ),
{
}

/// A cell without an attribute changes none of its lines.
pub proof fn plain_cells_draw_no_line(
    lines: Seq<RenderLine>,
    cell: RenderableCell,
    flag: LineFlag,
)
    requires
        match flag {
            LineFlag::Underline => !cell.flags.underline,
            LineFlag::DoubleUnderline => !cell.flags.double_underline,
            LineFlag::Strikeout => !cell.flags.strikeout,
            LineFlag::Undercurl => !cell.flags.undercurl,
            LineFlag::DottedUnderline => !cell.flags.dotted_underline,
            LineFlag::DashedUnderline => !cell.flags.dashed_underline,
        },
    ensures
        with_cell(lines, cell, flag) == lines,
        !flag.set_in(cell.flags),
{
}

/// Different attributes look different: only a strikeout runs through the text, only an undercurl is
/// curled, only dotted and dashed underlines are dotted and dashed, and a double underline is two
/// lines where every other attribute is one. Every piece has the color of the line.
pub proof fn attributes_look_different(
    line: RenderLine,
    flag: LineFlag,
    start: Point<usize>,
    last_column: usize,
    k: int,
)
    requires
        0 <= k < line.pieces_from(flag, start, last_column).len(),
    ensures
        ({
            let all = line.pieces_from(flag, start, last_column);
            let piece = all[k];
            &&& piece.color == line.color
            &&& piece.stroke is Strikeout <==> flag is Strikeout
            &&& piece.stroke is Underline <==> flag is Underline || flag is DashedUnderline
            &&& piece.stroke is Descent <==> flag is Undercurl || flag is DottedUnderline
            &&& piece.stroke is UpperUnderline <==> flag is DoubleUnderline && k % 2 == 0
            &&& piece.stroke is LowerUnderline <==> flag is DoubleUnderline && k % 2 == 1
            &&& piece.kind is Undercurl <==> flag is Undercurl
            &&& piece.kind is DottedUnderline <==> flag is DottedUnderline
            &&& piece.kind is DashedUnderline <==> flag is DashedUnderline
            &&& piece.kind is Normal <==> flag is Underline || flag is DoubleUnderline
                || flag is Strikeout
            &&& start.line >= line.end.line ==> all.len() == if flag is DoubleUnderline {
                2int
            } else {
                1
            }
        }),
    decreases line.end.line - start.line,
{
    if start.line < line.end.line {
        let row_end = Point { line: start.line, column: Column(last_column) };
        let row = pieces(flag, start, row_end, line.color);
        let next = Point { line: (start.line + 1) as usize, column: Column(0) };
        let rest = line.pieces_from(flag, next, last_column);
        assert(line.pieces_from(flag, start, last_column) == row + rest);
        if k >= row.len() {
            attributes_look_different(line, flag, next, last_column, k - row.len());
        }
    }
}

/// A line is drawn from its start to its end and nowhere else: a cell is covered by a piece exactly
/// where it lies between the two, in reading order, and every piece keeps to one line of the grid.
pub proof fn pieces_cover_the_line(
    line: RenderLine,
    flag: LineFlag,
    start: Point<usize>,
    last_column: usize,
    point: Point<usize>,
)
    requires
        start.line <= line.end.line,
        point.column.0 <= last_column,
    ensures
        ({
            let all = line.pieces_from(flag, start, last_column);
            let covered = |piece: LineRect|
                piece.start.line == point.line && piece.start.column.0 <= point.column.0
                    && point.column.0 <= piece.end.column.0;
            &&& (exists|k: int| 0 <= k < all.len() && covered(#[trigger] all[k])) <==> {
                &&& start.line < point.line || start.line == point.line && start.column.0
                    <= point.column.0
                &&& point.line < line.end.line || point.line == line.end.line && point.column.0
                    <= line.end.column.0
            }
            &&& forall|k: int|
                0 <= k < all.len() ==> (#[trigger] all[k]).start.line == all[k].end.line
        }),
    decreases line.end.line - start.line,
{
    let all = line.pieces_from(flag, start, last_column);
    let covered = |piece: LineRect|
        piece.start.line == point.line && piece.start.column.0 <= point.column.0
            && point.column.0 <= piece.end.column.0;
    if start.line < line.end.line {
        let row_end = Point { line: start.line, column: Column(last_column) };
        let row = pieces(flag, start, row_end, line.color);
        let next = Point { line: (start.line + 1) as usize, column: Column(0) };
        let rest = line.pieces_from(flag, next, last_column);
        assert(all == row + rest);
        pieces_cover_the_line(line, flag, next, last_column, point);
        assert(row.len() > 0 && row[0].start == start && row[0].end == row_end);
        assert(all[0] == row[0]);
        assert forall|k: int| 0 <= k < all.len() implies (#[trigger] all[k]).start.line
            == all[k].end.line by {
            if k >= row.len() {
                assert(all[k] == rest[k - row.len()]);
            }
        }
        if exists|k: int| 0 <= k < rest.len() && covered(#[trigger] rest[k]) {
            let k = choose|k: int| 0 <= k < rest.len() && covered(#[trigger] rest[k]);
            assert(all[row.len() + k] == rest[k]);
        }
        if exists|k: int| 0 <= k < all.len() && covered(#[trigger] all[k]) {
            let k = choose|k: int| 0 <= k < all.len() && covered(#[trigger] all[k]);
            if k >= row.len() {
                assert(all[k] == rest[k - row.len()]);
            }
        }
    } else {
        assert(all == pieces(flag, start, line.end, line.color));
        assert(all.len() > 0 && all[0].start == start && all[0].end == line.end);
        if covered(all[0]) {
        }
    }
}

proof fn line_pieces_hold(
    lines: Seq<RenderLine>,
    flag: LineFlag,
    last_column: usize,
    count: int,
    i: int,
    k: int,
)
    requires
        0 <= i < count <= lines.len(),
        0 <= k < lines[i].pieces_from(flag, lines[i].start, last_column).len(),
    ensures
        line_pieces(lines, flag, last_column, count).contains(
            lines[i].pieces_from(flag, lines[i].start, last_column)[k],
        ),
    decreases count,
{
    let before = line_pieces(lines, flag, last_column, count - 1);
    let own = lines[count - 1].pieces_from(flag, lines[count - 1].start, last_column);
    let all = line_pieces(lines, flag, last_column, count);
    assert(all == before + own);
    let piece = lines[i].pieces_from(flag, lines[i].start, last_column)[k];
    if i < count - 1 {
        line_pieces_hold(lines, flag, last_column, count - 1, i, k);
        let at = choose|at: int| 0 <= at < before.len() && before[at] == piece;
        assert(all[at] == piece);
    } else {
        assert(all[before.len() + k] == piece);
    }
}

/// Every line of every attribute is drawn, piece by piece, and nothing else is.
pub proof fn every_line_is_drawn(lines: RenderLines, columns: usize, flag: LineFlag, i: int, k: int)
    requires
        0 <= i < lines.lines(flag).len(),
        0 <= k < lines.lines(flag)[i].pieces_from(
            flag,
            lines.lines(flag)[i].start,
            (columns - 1) as usize,
        ).len(),
    ensures
        lines.all_pieces(columns).contains(
            lines.lines(flag)[i].pieces_from(
                flag,
                lines.lines(flag)[i].start,
                (columns - 1) as usize,
            )[k],
        ),
        lines.all_pieces(columns).len() == lines.flag_pieces(LineFlag::Underline, columns).len()
            + lines.flag_pieces(LineFlag::DoubleUnderline, columns).len() + lines.flag_pieces(
            LineFlag::Strikeout,
            columns,
        ).len() + lines.flag_pieces(LineFlag::Undercurl, columns).len() + lines.flag_pieces(
            LineFlag::DottedUnderline,
            columns,
        ).len() + lines.flag_pieces(LineFlag::DashedUnderline, columns).len(),
{
    let last_column = (columns - 1) as usize;
    let own = lines.lines(flag);
    let piece = own[i].pieces_from(flag, own[i].start, last_column)[k];
    line_pieces_hold(own, flag, last_column, own.len() as int, i, k);
    let here = lines.flag_pieces(flag, columns);
    let at = choose|at: int| 0 <= at < here.len() && here[at] == piece;
    let a = lines.flag_pieces(LineFlag::Underline, columns).len();
    let b = a + lines.flag_pieces(LineFlag::DoubleUnderline, columns).len();
    let c = b + lines.flag_pieces(LineFlag::Strikeout, columns).len();
    let d = c + lines.flag_pieces(LineFlag::Undercurl, columns).len();
    let e = d + lines.flag_pieces(LineFlag::DottedUnderline, columns).len();
    let all = lines.all_pieces(columns);
    match flag {
        LineFlag::Underline => {
            assert(all[at] == piece);
        },
        LineFlag::DoubleUnderline => {
            assert(all[a + at] == piece);
        },
        LineFlag::Strikeout => {
            assert(all[b + at] == piece);
        },
        LineFlag::Undercurl => {
            assert(all[c + at] == piece);
        },
        LineFlag::DottedUnderline => {
            assert(all[d + at] == piece);
        },
        LineFlag::DashedUnderline => {
            assert(all[e + at] == piece);
        },
    }
}

/// The positions of the first `count` rectangles that are of a kind, in order.
pub open spec fn positions(kinds: Seq<RectKind>, kind: RectKind, count: int) -> Seq<usize>
    decreases count,
{
    if count <= 0 {
        Seq::empty()
    } else if kinds[count - 1] == kind {
        positions(kinds, kind, count - 1).push((count - 1) as usize)
    } else {
        positions(kinds, kind, count - 1)
    }
}

/// The order in which rectangles are drawn, with normal ones on top.
pub open spec fn painted(kinds: Seq<RectKind>) -> Seq<usize> {
    let count = kinds.len() as int;
    positions(kinds, RectKind::DashedUnderline, count) + positions(
        kinds,
        RectKind::DottedUnderline,
        count,
    ) + positions(kinds, RectKind::Undercurl, count) + positions(kinds, RectKind::Normal, count)
}

/// Append the positions of the rectangles of a kind.
pub(crate) fn push_positions(order: &mut Vec<usize>, kinds: &Vec<RectKind>, kind: RectKind)
    ensures
        final(order)@ == old(order)@ + positions(kinds@, kind, kinds@.len() as int),
{
    let mut index: usize = 0;
    assert(order@ =~= old(order)@ + positions(kinds@, kind, 0));
    while index < kinds.len()
        invariant
            index <= kinds@.len(),
            order@ == old(order)@ + positions(kinds@, kind, index as int),
        decreases kinds@.len() - index,
    {
        if kinds[index] == kind {
            order.push(index);
        }
        index += 1;
        assert(order@ =~= old(order)@ + positions(kinds@, kind, index as int));
    }
}

/// The order in which rectangles of the given kinds are drawn.
pub fn paint_order(kinds: &Vec<RectKind>) -> (order: Vec<usize>)
    ensures
        order@ == painted(kinds@),
{
    let mut order: Vec<usize> = Vec::new();
    push_positions(&mut order, kinds, RectKind::DashedUnderline);
    push_positions(&mut order, kinds, RectKind::DottedUnderline);
    push_positions(&mut order, kinds, RectKind::Undercurl);
    push_positions(&mut order, kinds, RectKind::Normal);
    assert(order@ =~= painted(kinds@));
    order
}

proof fn positions_are_sorted(kinds: Seq<RectKind>, kind: RectKind, count: int)
    requires
        0 <= count <= kinds.len() <= usize::MAX,
    ensures
        forall|i: int|
            0 <= i < positions(kinds, kind, count).len() ==> (#[trigger] positions(
                kinds,
                kind,
                count,
            )[i]) < count && kinds[positions(kinds, kind, count)[i] as int] == kind,
        forall|i: int, j: int|
            0 <= i < j < positions(kinds, kind, count).len() ==> #[trigger] positions(
                kinds,
                kind,
                count,
            )[i] < #[trigger] positions(kinds, kind, count)[j],
        forall|k: int|
            0 <= k < count && kinds[k] == kind ==> positions(kinds, kind, count).contains(k as usize),
    decreases count,
{
    if count > 0 {
        positions_are_sorted(kinds, kind, count - 1);
        let shorter = positions(kinds, kind, count - 1);
        let longer = positions(kinds, kind, count);
        assert forall|k: int| 0 <= k < count && kinds[k] == kind implies longer.contains(
            k as usize,
        ) by {
            if k < count - 1 {
                let i = choose|i: int| 0 <= i < shorter.len() && shorter[i] == k as usize;
                assert(longer[i] == k as usize);
            } else {
                assert(longer[longer.len() - 1] == k as usize);
            }
        }
    }
}

/// How late a kind is drawn.
pub open spec fn depth(kind: RectKind) -> int {
    match kind {
        RectKind::DashedUnderline => 0,
        RectKind::DottedUnderline => 1,
        RectKind::Undercurl => 2,
        RectKind::Normal => 3,
        RectKind::NumKinds => 4,
    }
}

/// Every rectangle of a drawable kind is drawn exactly once, rectangles of one kind in the order in
/// which they come, and normal rectangles after all others.
pub proof fn every_rect_is_painted_once(kinds: Seq<RectKind>)
    requires
        kinds.len() <= usize::MAX,
    ensures
        forall|i: int|
            0 <= i < painted(kinds).len() ==> (#[trigger] painted(kinds)[i]) < kinds.len()
                && kinds[painted(kinds)[i] as int] != RectKind::NumKinds,
        forall|k: int|
            0 <= k < kinds.len() && kinds[k] != RectKind::NumKinds ==> painted(kinds).contains(
                k as usize,
            ),
        forall|i: int, j: int|
            0 <= i < j < painted(kinds).len() ==> {
                let first = #[trigger] painted(kinds)[i];
                let second = #[trigger] painted(kinds)[j];
                ||| depth(kinds[first as int]) < depth(kinds[second as int])
                ||| kinds[first as int] == kinds[second as int] && first < second
            },
        forall|i: int, j: int|
            0 <= i < j < painted(kinds).len() && kinds[#[trigger] painted(kinds)[i] as int]
                == RectKind::Normal ==> kinds[#[trigger] painted(kinds)[j] as int]
                == RectKind::Normal,
{
    let count = kinds.len() as int;
    let dashed = positions(kinds, RectKind::DashedUnderline, count);
    let dotted = positions(kinds, RectKind::DottedUnderline, count);
    let curled = positions(kinds, RectKind::Undercurl, count);
    let normal = positions(kinds, RectKind::Normal, count);
    positions_are_sorted(kinds, RectKind::DashedUnderline, count);
    positions_are_sorted(kinds, RectKind::DottedUnderline, count);
    positions_are_sorted(kinds, RectKind::Undercurl, count);
    positions_are_sorted(kinds, RectKind::Normal, count);
    let all = painted(kinds);
    assert forall|k: int|
        0 <= k < kinds.len() && kinds[k] != RectKind::NumKinds implies all.contains(k as usize) by {
        match kinds[k] {
            RectKind::DashedUnderline => {
                let i = choose|i: int| 0 <= i < dashed.len() && dashed[i] == k as usize;
                assert(all[i] == k as usize);
            },
            RectKind::DottedUnderline => {
                let i = choose|i: int| 0 <= i < dotted.len() && dotted[i] == k as usize;
                assert(all[dashed.len() + i] == k as usize);
            },
            RectKind::Undercurl => {
                let i = choose|i: int| 0 <= i < curled.len() && curled[i] == k as usize;
                assert(all[dashed.len() + dotted.len() + i] == k as usize);
            },
            RectKind::Normal => {
                let i = choose|i: int| 0 <= i < normal.len() && normal[i] == k as usize;
                assert(all[dashed.len() + dotted.len() + curled.len() + i] == k as usize);
            },
            RectKind::NumKinds => {},
        }
    }
}

/// The corners of a rectangle in the order in which two triangles use them: the corners are the
/// upper left, the lower left, the upper right and the lower right one.
pub fn quad_corners() -> (corners: [usize; 6])
    ensures
        corners@ == seq![0usize, 1, 2, 2, 3, 1],
{
    let corners: [usize; 6] = [0, 1, 2, 2, 3, 1];
    assert(corners@ =~= seq![0usize, 1, 2, 2, 3, 1]);
    corners
}

/// The shader can tell the kinds apart: each has a number of its own, from zero on without a gap, and the
/// last number is how many there are to be drawn.
pub proof fn kinds_have_numbers_of_their_own(first: RectKind, second: RectKind)
    ensures
        first.shader_number() == second.shader_number() <==> first == second,
        RectKind::Normal.shader_number() == 0,
        RectKind::Undercurl.shader_number() == RectKind::Normal.shader_number() + 1,
        RectKind::DottedUnderline.shader_number() == RectKind::Undercurl.shader_number() + 1,
        RectKind::DashedUnderline.shader_number() == RectKind::DottedUnderline.shader_number() + 1,
        first != RectKind::NumKinds <==> first.shader_number() < RectKind::NumKinds.shader_number(),
{
}

/// A cell with an attribute draws a line of it: some line of the attribute covers the cell.
pub proof fn cells_with_attributes_draw_their_lines(
    lines: Seq<RenderLine>,
    cell: RenderableCell,
    flag: LineFlag,
)
    requires
        match flag {
            LineFlag::Underline => cell.flags.underline,
            LineFlag::DoubleUnderline => cell.flags.double_underline,
            LineFlag::Strikeout => cell.flags.strikeout,
            LineFlag::Undercurl => cell.flags.undercurl,
            LineFlag::DottedUnderline => cell.flags.dotted_underline,
            LineFlag::DashedUnderline => cell.flags.dashed_underline,
        },
        cell.flags.wide_char ==> cell.point.column.0 < usize::MAX,
        forall|i: int| 0 <= i < lines.len() ==> is_straight(#[trigger] lines[i]),
    ensures
        flag.set_in(cell.flags),
        with_cell(lines, cell, flag).len() > 0,
        line_covers(with_cell(lines, cell, flag).last(), cell.point),
{
    updated_lines_cover_the_cell(lines, cell, flag);
}

} // verus!
