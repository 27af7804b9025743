use vstd::prelude::*;

verus! {

/// The four ways the cursor can face.
#[derive(Clone, Copy, Debug, PartialEq, Eq, Structural)]
pub enum Direction {
    Left,
    Right,
    Up,
    Down,
}

/// Whether a cell is run as an instruction or pushed as a character.
#[derive(Clone, Copy, Debug, PartialEq, Eq, Structural)]
pub enum Mode {
    Normal,
    StringLiteral,
}

/// The source of the heading that the `?` instruction takes.
///
/// An interpreter owns one and asks it once for each `?` that it runs. An
/// implementation is expected to pick each of the four headings equally
/// often; the interpreter is correct for every choice.
pub trait HeadingSource {
    fn choose_heading(&mut self) -> Direction;
}

/// The four headings, in the order in which a source of random headings
/// numbers them.
pub open spec fn all_headings() -> Seq<Direction> {
    seq![Direction::Left, Direction::Right, Direction::Up, Direction::Down]
}

/// The cell one step from `(row, col)` in `heading`, on a grid of `height`
/// rows and `width` columns whose edges are glued to the opposite edges.
pub open spec fn next_cell(row: int, col: int, heading: Direction, height: int, width: int) -> (
    int,
    int,
) {
    match heading {
        Direction::Left => (row, if col == 0 { width - 1 } else { col - 1 }),
        Direction::Right => (row, if col == width - 1 { 0 } else { col + 1 }),
        Direction::Up => (if row == 0 { height - 1 } else { row - 1 }, col),
        Direction::Down => (if row == height - 1 { 0 } else { row + 1 }, col),
    }
}

/// A step from a cell of the grid ends in a cell of the grid, in the same row
/// for a horizontal heading and in the same column for a vertical one.
pub proof fn lemma_next_cell_in_grid(
    row: int,
    col: int,
    heading: Direction,
    height: int,
    width: int,
)
    requires
        0 <= row < height,
        0 <= col < width,
    ensures
        0 <= next_cell(row, col, heading, height, width).0 < height,
        0 <= next_cell(row, col, heading, height, width).1 < width,
        heading == Direction::Left || heading == Direction::Right ==> next_cell(
            row,
            col,
            heading,
            height,
            width,
        ).0 == row,
        heading == Direction::Up || heading == Direction::Down ==> next_cell(
            row,
            col,
            heading,
            height,
            width,
        ).1 == col,
{
}

/// Movement wraps: leftwards from the first column to the last and rightwards
/// from the last to the first, in the same row; upwards from the first row to
/// the last and downwards from the last to the first, in the same column.
pub proof fn lemma_next_cell_wraps(row: int, col: int, height: int, width: int)
    requires
        0 <= row < height,
        0 <= col < width,
    ensures
        next_cell(row, 0, Direction::Left, height, width) == (row, width - 1),
        next_cell(row, width - 1, Direction::Right, height, width) == (row, 0int),
        next_cell(0, col, Direction::Up, height, width) == (height - 1, col),
        next_cell(height - 1, col, Direction::Down, height, width) == (0int, col),
{
}

/// Away from the edges a step changes one coordinate by one. Movement is the
/// same as counting modulo the grid's extent.
pub proof fn lemma_next_cell_is_modular(
    row: int,
    col: int,
    heading: Direction,
    height: int,
    width: int,
)
    requires
        0 <= row < height,
        0 <= col < width,
    ensures
        next_cell(row, col, heading, height, width) == match heading {
            Direction::Left => (row, (col + width - 1) % width),
            Direction::Right => (row, (col + 1) % width),
            Direction::Up => ((row + height - 1) % height, col),
            Direction::Down => ((row + 1) % height, col),
        },
{
    assert((col + width - 1) % width == if col == 0 { width - 1 } else { col - 1 }) by {
        if col == 0 {
            vstd::arithmetic::div_mod::lemma_small_mod((width - 1) as nat, width as nat);
        } else {
            vstd::arithmetic::div_mod::lemma_mod_add_multiples_vanish(col - 1, width);
            vstd::arithmetic::div_mod::lemma_small_mod((col - 1) as nat, width as nat);
        }
    }
    assert((col + 1) % width == if col == width - 1 { 0 } else { col + 1 }) by {
        if col == width - 1 {
            vstd::arithmetic::div_mod::lemma_mod_self_0(width);
        } else {
            vstd::arithmetic::div_mod::lemma_small_mod((col + 1) as nat, width as nat);
        }
    }
    assert((row + height - 1) % height == if row == 0 { height - 1 } else { row - 1 }) by {
        if row == 0 {
            vstd::arithmetic::div_mod::lemma_small_mod((height - 1) as nat, height as nat);
        } else {
            vstd::arithmetic::div_mod::lemma_mod_add_multiples_vanish(row - 1, height);
            vstd::arithmetic::div_mod::lemma_small_mod((row - 1) as nat, height as nat);
        }
    }
    assert((row + 1) % height == if row == height - 1 { 0 } else { row + 1 }) by {
        if row == height - 1 {
            vstd::arithmetic::div_mod::lemma_mod_self_0(height);
        } else {
            vstd::arithmetic::div_mod::lemma_small_mod((row + 1) as nat, height as nat);
        }
    }
}

} // verus!
