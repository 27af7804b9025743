use crate::heading::{lemma_next_cell_in_grid, next_cell, Direction};
use crate::text::chars_of;
use vstd::prelude::*;

verus! {

/// The index of the first line feed in `text`, or the length of `text` where
/// it holds none.
pub open spec fn line_end(text: Seq<char>) -> int {
    match text.index_of_first('\n') {
        Some(index) => index,
        None => text.len() as int,
    }
}

/// `line` without one carriage return at its end.
pub open spec fn without_carriage_return(line: Seq<char>) -> Seq<char> {
    if line.len() > 0 && line.last() == '\r' {
        line.drop_last()
    } else {
        line
    }
}

/// The lines of `text`. A line ends at a line feed, which is not part of it,
/// and neither is a carriage return that stands directly before that line
/// feed. What follows the last line feed is a line of its own unless it is
/// empty, so a text that ends in a line feed has the same lines as the text
/// without that line feed.
pub open spec fn lines_of(text: Seq<char>) -> Seq<Seq<char>>
    decreases text.len(),
{
    let end = line_end(text);
    if text.len() == 0 {
        Seq::empty()
    } else if 0 <= end < text.len() {
        seq![without_carriage_return(text.take(end))] + lines_of(text.skip(end + 1))
    } else {
        seq![text]
    }
}

/// The length of the longest of `lines`; 0 where there is none.
pub open spec fn longest(lines: Seq<Seq<char>>) -> nat
    decreases lines.len(),
{
    if lines.len() == 0 {
        0
    } else {
        let before = longest(lines.drop_last());
        if lines.last().len() > before {
            lines.last().len()
        } else {
            before
        }
    }
}

/// `line` filled up with spaces on the right to `width` characters, or cut
/// to `width` characters where it is longer.
pub open spec fn padded(line: Seq<char>, width: nat) -> Seq<char> {
    Seq::new(
        width,
        |col: int|
            if col < line.len() {
                line[col]
            } else {
                ' '
            },
    )
}

/// The grid that a program text stands for: one row for each line, each
/// filled up with spaces to the length of the longest line.
pub open spec fn grid_of(text: Seq<char>) -> Seq<Seq<char>> {
    let lines = lines_of(text);
    Seq::new(lines.len(), |row: int| padded(lines[row], longest(lines)))
}

/// Every row of `cells` has the same length.
pub open spec fn rectangular(cells: Seq<Seq<char>>) -> bool {
    forall|row: int| 0 <= row < cells.len() ==> (#[trigger] cells[row]).len() == cells[0].len()
}

/// The number of columns of `cells`: the length of its rows.
pub open spec fn width_of(cells: Seq<Seq<char>>) -> nat {
    if cells.len() == 0 {
        0
    } else {
        cells[0].len()
    }
}

/// The rows of `cells`, each as the sequence of its characters.
pub open spec fn rows_of(cells: Seq<Vec<char>>) -> Seq<Seq<char>> {
    Seq::new(cells.len(), |row: int| cells[row]@)
}

/// `line_end` is the one index before which no line feed stands and at which
/// one does, or the text ends.
pub proof fn lemma_line_end(text: Seq<char>, end: int)
    requires
        0 <= end <= text.len(),
        forall|k: int| 0 <= k < end ==> text[k] != '\n',
        end < text.len() ==> text[end] == '\n',
    ensures
        line_end(text) == end,
{
    text.index_of_first_ensures('\n');
    match text.index_of_first('\n') {
        Some(index) => {
            if index < end {
                assert(text[index] != '\n');
            } else if index > end {
                assert(text[end] == '\n');
            }
        },
        None => {
            if end < text.len() {
                assert(text.contains(text[end]));
            }
        },
    }
}

/// No line is longer than the longest.
pub proof fn lemma_longest_bounds(lines: Seq<Seq<char>>, row: int)
    requires
        0 <= row < lines.len(),
    ensures
        lines[row].len() <= longest(lines),
    decreases lines.len(),
{
    if row < lines.len() - 1 {
        lemma_longest_bounds(lines.drop_last(), row);
    }
}

/// The grid of a text is rectangular: it has one row for each line, and each
/// row is as long as the longest line.
pub proof fn lemma_grid_of_shape(text: Seq<char>)
    ensures
        rectangular(grid_of(text)),
        grid_of(text).len() == lines_of(text).len(),
        width_of(grid_of(text)) == if lines_of(text).len() == 0 {
            0
        } else {
            longest(lines_of(text))
        },
{
}

/// Cuts `chars` into its lines.
pub fn split_lines(chars: &[char]) -> (lines: Vec<Vec<char>>)
    ensures
        rows_of(lines@) == lines_of(chars@),
{
    let mut lines: Vec<Vec<char>> = Vec::new();
    let mut start: usize = 0;
    assert(chars@.skip(0) == chars@);
    while start < chars.len()
        invariant
            start <= chars.len(),
            lines_of(chars@) == rows_of(lines@) + lines_of(chars@.skip(start as int)),
        decreases chars.len() - start,
    {
        let ghost rest = chars@.skip(start as int);
        let ghost before = rows_of(lines@);
        let mut line: Vec<char> = Vec::new();
        let mut end: usize = start;
        while end < chars.len() && chars[end] != '\n'
            invariant
                start <= end <= chars.len(),
                line@ == chars@.subrange(start as int, end as int),
                forall|k: int| start <= k < end ==> chars@[k] != '\n',
            decreases chars.len() - end,
        {
            line.push(chars[end]);
            end += 1;
        }
        proof {
            lemma_line_end(rest, end - start);
            assert(rest.take(end - start) == line@);
        }
        if end < chars.len() {
            let n = line.len();
            if n > 0 && line[n - 1] == '\r' {
                line.pop();
            }
            let ghost kept = line@;
            lines.push(line);
            proof {
                assert(kept == without_carriage_return(rest.take(end - start)));
                assert(rest.skip(end - start + 1) == chars@.skip(end + 1));
                assert(rows_of(lines@) == before.push(kept));
                assert(lines_of(rest) == seq![kept] + lines_of(chars@.skip(end + 1)));
            }
            start = end + 1;
        } else {
            let ghost kept = line@;
            lines.push(line);
            proof {
                assert(kept == rest);
                assert(rows_of(lines@) == before.push(kept));
                assert(lines_of(chars@.skip(end as int)) == Seq::<Seq<char>>::empty());
            }
            start = end;
        }
    }
    lines
}

/// The length of the longest of `lines`.
pub fn longest_line(lines: &[Vec<char>]) -> (width: usize)
    ensures
        width == longest(rows_of(lines@)),
{
    let mut width: usize = 0;
    let mut row: usize = 0;
    assert(rows_of(lines@).take(0) == Seq::<Seq<char>>::empty());
    while row < lines.len()
        invariant
            row <= lines.len(),
            width == longest(rows_of(lines@).take(row as int)),
        decreases lines.len() - row,
    {
        proof {
            let upto = rows_of(lines@).take(row + 1);
            assert(upto.drop_last() == rows_of(lines@).take(row as int));
            assert(upto.last() == lines@[row as int]@);
        }
        if lines[row].len() > width {
            width = lines[row].len();
        }
        row += 1;
    }
    assert(rows_of(lines@).take(row as int) == rows_of(lines@));
    width
}

/// `line` filled up with spaces on the right to `width` characters, or cut
/// to `width` characters where it is longer.
pub fn pad_line(line: &[char], width: usize) -> (row: Vec<char>)
    ensures
        row@ == padded(line@, width as nat),
{
    let mut row: Vec<char> = Vec::new();
    let mut col: usize = 0;
    while col < width
        invariant
            col <= width,
            row@.len() == col,
            forall|k: int| 0 <= k < col ==> row@[k] == padded(line@, width as nat)[k],
        decreases width - col,
    {
        if col < line.len() {
            row.push(line[col]);
        } else {
            row.push(' ');
        }
        col += 1;
    }
    assert(row@ =~= padded(line@, width as nat));
    row
}

/// The grid of a text holds every character of every line, in its row at
/// its place, and a space wherever a line has ended.
pub proof fn lemma_grid_of_cells(text: Seq<char>, row: int, col: int)
    requires
        0 <= row < lines_of(text).len(),
        0 <= col < longest(lines_of(text)),
    ensures
        lines_of(text)[row].len() <= grid_of(text)[row].len(),
        grid_of(text)[row][col] == if col < lines_of(text)[row].len() {
            lines_of(text)[row][col]
        } else {
            ' '
        },
{
    lemma_longest_bounds(lines_of(text), row);
}

/// What a `Grid` stands for: the cells, row by row, and the cell that the
/// cursor is on.
pub struct Field {
    pub cells: Seq<Seq<char>>,
    pub row: int,
    pub col: int,
}

impl Field {
    /// The number of rows.
    pub open spec fn height(self) -> nat {
        self.cells.len()
    }

    /// The number of columns.
    pub open spec fn width(self) -> nat {
        width_of(self.cells)
    }

    /// Whether there is any cell at all.
    pub open spec fn has_cells(self) -> bool {
        self.height() > 0 && self.width() > 0
    }

    /// Whether row `row`, column `col` is a cell.
    pub open spec fn holds(self, row: int, col: int) -> bool {
        0 <= row < self.height() && 0 <= col < self.width()
    }

    /// The rows are equally long, and the cursor is on a cell wherever there
    /// is one.
    pub open spec fn wf(self) -> bool {
        &&& rectangular(self.cells)
        &&& 0 <= self.row
        &&& 0 <= self.col
        &&& self.has_cells() ==> self.holds(self.row, self.col)
    }

    /// The character under the cursor.
    pub open spec fn current(self) -> char {
        self.cells[self.row][self.col]
    }

    /// This field with the cursor one step further in `heading`; unchanged
    /// where it has no cell.
    pub open spec fn advanced(self, heading: Direction) -> Field {
        if self.has_cells() {
            let (row, col) = next_cell(
                self.row,
                self.col,
                heading,
                self.height() as int,
                self.width() as int,
            );
            Field { row, col, ..self }
        } else {
            self
        }
    }

    /// This field with `value` in row `row`, column `col`.
    pub open spec fn with_cell(self, row: int, col: int, value: char) -> Field {
        Field { cells: self.cells.update(row, self.cells[row].update(col, value)), ..self }
    }
}

/// A step keeps the cursor on the grid and the grid as it is.
pub proof fn lemma_advanced_wf(field: Field, heading: Direction)
    requires
        field.wf(),
    ensures
        field.advanced(heading).wf(),
        field.advanced(heading).cells == field.cells,
{
    if field.has_cells() {
        lemma_next_cell_in_grid(
            field.row,
            field.col,
            heading,
            field.height() as int,
            field.width() as int,
        );
    }
}

/// A write to a cell keeps the shape of the grid and changes that cell
/// alone: read back, the cell holds what was written, and every other cell
/// what it held before.
pub proof fn lemma_with_cell(field: Field, row: int, col: int, value: char)
    requires
        field.wf(),
        field.holds(row, col),
    ensures
        field.with_cell(row, col, value).wf(),
        field.with_cell(row, col, value).height() == field.height(),
        field.with_cell(row, col, value).width() == field.width(),
        field.with_cell(row, col, value).cells[row][col] == value,
        forall|r: int, c: int|
            field.holds(r, c) && (r != row || c != col) ==> #[trigger] field.with_cell(
                row,
                col,
                value,
            ).cells[r][c] == field.cells[r][c],
{
    let after = field.with_cell(row, col, value);
    assert(field.cells[row].len() == field.cells[0].len());
    assert forall|r: int| 0 <= r < after.cells.len() implies (#[trigger] after.cells[r]).len()
        == after.cells[0].len() by {
        assert(field.cells[r].len() == field.cells[0].len());
    }
    assert forall|r: int, c: int|
        field.holds(r, c) && (r != row || c != col) implies after.cells[r][c]
        == field.cells[r][c] by {
        assert(field.cells[r].len() == field.cells[0].len());
    }
}

/// The program, a rectangle of characters that keeps its shape, together
/// with the cell that the cursor is on. Rows are numbered from the top and
/// columns from the left, both from 0. Wherever the grid has a cell, the
/// cursor is on one.
#[derive(Debug)]
pub struct Grid {
    cells: Vec<Vec<char>>,
    row: usize,
    col: usize,
}

impl View for Grid {
    type V = Field;

    closed spec fn view(&self) -> Field {
        Field { cells: rows_of(self.cells@), row: self.row as int, col: self.col as int }
    }
}

impl Grid {
    /// Holds of every grid: the rows are equally long, and the cursor is
    /// on a cell wherever there is one.
    #[verifier::type_invariant]
    pub open spec fn well_formed(&self) -> bool {
        self@.wf()
    }

    /// The grid without any cell.
    pub fn new() -> (grid: Grid)
        ensures
            grid@ == (Field { cells: Seq::empty(), row: 0, col: 0 }),
            grid@.wf(),
    {
        let grid = Grid { cells: Vec::new(), row: 0, col: 0 };
        assert(grid@.cells =~= Seq::<Seq<char>>::empty());
        grid
    }

    /// The grid that `text` stands for, with the cursor on its first cell.
    pub fn from_text(text: &str) -> (grid: Grid)
        ensures
            grid@ == (Field { cells: grid_of(text@), row: 0, col: 0 }),
            grid@.wf(),
    {
        let chars = chars_of(text);
        let lines = split_lines(chars.as_slice());
        let width = longest_line(lines.as_slice());
        let mut cells: Vec<Vec<char>> = Vec::new();
        let mut row: usize = 0;
        while row < lines.len()
            invariant
                row <= lines.len(),
                cells@.len() == row,
                rows_of(lines@) == lines_of(text@),
                width == longest(lines_of(text@)),
                forall|k: int| 0 <= k < row ==> (#[trigger] cells@[k])@ == grid_of(text@)[k],
            decreases lines.len() - row,
        {
            let padded_row = pad_line(lines[row].as_slice(), width);
            cells.push(padded_row);
            row += 1;
        }
        proof {
            lemma_grid_of_shape(text@);
            assert(rows_of(cells@) =~= grid_of(text@));
        }
        Grid { cells, row: 0, col: 0 }
    }

    pub fn height(&self) -> (rows: usize)
        ensures
            rows == self@.height(),
    {
        self.cells.len()
    }

    pub fn width(&self) -> (cols: usize)
        ensures
            cols == self@.width(),
    {
        if self.cells.len() == 0 {
            0
        } else {
            self.cells[0].len()
        }
    }

    /// Whether the grid has no cell at all.
    pub fn is_empty(&self) -> (empty: bool)
        ensures
            empty == !self@.has_cells(),
            self@.wf(),
    {
        proof {
            use_type_invariant(self);
        }
        self.height() == 0 || self.width() == 0
    }

    /// The row that the cursor is on.
    pub fn row(&self) -> (row: usize)
        ensures
            row == self@.row,
    {
        self.row
    }

    /// The column that the cursor is on.
    pub fn col(&self) -> (col: usize)
        ensures
            col == self@.col,
    {
        self.col
    }

    /// The character under the cursor; `None` where the grid has no cell.
    pub fn current(&self) -> (cell: Option<char>)
        ensures
            cell == if self@.has_cells() {
                Some(self@.current())
            } else {
                None
            },
            self@.wf(),
    {
        proof {
            use_type_invariant(self);
        }
        if self.is_empty() {
            None
        } else {
            assert(self@.cells[self.row as int].len() == self@.cells[0].len());
            Some(self.cells[self.row][self.col])
        }
    }

    /// Moves the cursor one cell in `heading`. Past an edge it comes back in
    /// at the opposite edge, in the same row or column.
    pub fn advance(&mut self, heading: Direction)
        ensures
            final(self)@ == old(self)@.advanced(heading),
            final(self)@.wf(),
    {
        proof {
            use_type_invariant(&*self);
            lemma_advanced_wf(self@, heading);
        }
        if self.is_empty() {
            return ;
        }
        let height = self.height();
        let width = self.width();
        match heading {
            Direction::Left => {
                self.col = if self.col == 0 {
                    width - 1
                } else {
                    self.col - 1
                };
            },
            Direction::Right => {
                self.col = if self.col == width - 1 {
                    0
                } else {
                    self.col + 1
                };
            },
            Direction::Up => {
                self.row = if self.row == 0 {
                    height - 1
                } else {
                    self.row - 1
                };
            },
            Direction::Down => {
                self.row = if self.row == height - 1 {
                    0
                } else {
                    self.row + 1
                };
            },
        }
    }

    /// The character in row `row`, column `col`; `None` outside the grid.
    pub fn get(&self, row: usize, col: usize) -> (cell: Option<char>)
        ensures
            cell == if self@.holds(row as int, col as int) {
                Some(self@.cells[row as int][col as int])
            } else {
                None
            },
    {
        proof {
            use_type_invariant(self);
        }
        if row < self.cells.len() {
            assert(self@.cells[row as int].len() == self@.cells[0].len());
            if col < self.cells[row].len() {
                Some(self.cells[row][col])
            } else {
                None
            }
        } else {
            None
        }
    }

    /// Writes `value` to row `row`, column `col`. Outside the grid nothing is
    /// written, and the result is `false`.
    pub fn put(&mut self, row: usize, col: usize, value: char) -> (written: bool)
        ensures
            written == old(self)@.holds(row as int, col as int),
            final(self)@ == if written {
                old(self)@.with_cell(row as int, col as int, value)
            } else {
                old(self)@
            },
            final(self)@.wf(),
    {
        proof {
            use_type_invariant(&*self);
        }
        if row >= self.cells.len() {
            return false;
        }
        assert(self@.cells[row as int].len() == self@.cells[0].len());
        if col >= self.cells[row].len() {
            return false;
        }
        let ghost before = self@;
        let position = (self.row, self.col);
        let mut cells: Vec<Vec<char>> = Vec::new();
        self.row = 0;
        self.col = 0;
        std::mem::swap(&mut self.cells, &mut cells);
        cells[row][col] = value;
        proof {
            lemma_with_cell(before, row as int, col as int, value);
            assert(rows_of(cells@) =~= before.with_cell(row as int, col as int, value).cells);
        }
        std::mem::swap(&mut self.cells, &mut cells);
        self.row = position.0;
        self.col = position.1;
        true
    }

    /// The rows, from the top.
    pub fn rows(&self) -> (rows: &Vec<Vec<char>>)
        ensures
            rows_of(rows@) == self@.cells,
    {
        &self.cells
    }
}

} // verus!
