use crate::error::InterpreterError;
use crate::grid::{lemma_advanced_wf, lemma_with_cell, Field};
use crate::heading::{lemma_next_cell_wraps, Direction, Mode};
use crate::machine::{decode, is_byte, Instruction, State};
use vstd::prelude::*;

verus! {

/// The cursor wraps around the grid. In the first column heading left it
/// moves to the last column of the same row, and in the last column heading
/// right to the first; in the first row heading up it moves to the last row
/// of the same column, and in the last row heading down to the first.
pub proof fn lemma_cursor_wraps(field: Field)
    requires
        field.wf(),
        field.has_cells(),
    ensures
        field.col == 0 ==> field.advanced(Direction::Left) == (Field {
            col: field.width() - 1,
            ..field
        }),
        field.col == field.width() - 1 ==> field.advanced(Direction::Right) == (Field {
            col: 0,
            ..field
        }),
        field.row == 0 ==> field.advanced(Direction::Up) == (Field {
            row: field.height() - 1,
            ..field
        }),
        field.row == field.height() - 1 ==> field.advanced(Direction::Down) == (Field {
            row: 0,
            ..field
        }),
{
    lemma_next_cell_wraps(field.row, field.col, field.height() as int, field.width() as int);
}

/// A value that `p` writes to a cell of the grid is the value that `g` reads
/// from that cell: with the value, `x` and `y` on the stack `p` succeeds, and
/// with `x` and `y` pushed again `g` succeeds and pushes the value.
pub proof fn lemma_put_then_get(state: State, value: isize, x: isize, y: isize)
    requires
        state.wf(),
        is_byte(value),
        state.field.holds(y as int, x as int),
    ensures
        ({
            let written = state.pushed(value).pushed(x).pushed(y).put();
            let read = written.state.pushed(x).pushed(y).get();
            &&& written.result is Ok
            &&& written.state.stack == state.stack
            &&& read.result is Ok
            &&& read.state == written.state.pushed(value)
        }),
{
    let loaded = state.pushed(value).pushed(x).pushed(y);
    assert(loaded.popped().popped().popped().stack == state.stack);
    let written = loaded.put();
    lemma_with_cell(state.field, y as int, x as int, value as u8 as char);
    let again = written.state.pushed(x).pushed(y);
    assert(again.popped().popped().stack == state.stack);
    assert((value as u8 as char) as isize == value);
}

/// A write to one cell leaves every other cell as it was.
pub proof fn lemma_put_changes_one_cell(state: State, row: int, col: int)
    requires
        state.wf(),
        state.put().result is Ok,
        state.field.holds(row, col),
        row != state.first() || col != state.second(),
    ensures
        state.put().state.field.cells[row][col] == state.field.cells[row][col],
{
    lemma_with_cell(
        state.field,
        state.first() as int,
        state.second() as int,
        state.third() as u8 as char,
    );
}

/// `g` fails exactly for coordinates that are no cell of the grid, with the
/// two coordinates as they were popped and nothing pushed.
pub proof fn lemma_get_checks_bounds(state: State)
    ensures
        state.get().result is Ok <==> state.field.holds(
            state.first() as int,
            state.second() as int,
        ),
        state.get().result is Err ==> state.get() == state.popped().popped().failed(
            InterpreterError::InvalidCoordinates { x: state.second(), y: state.first() },
        ),
{
}

/// `p` fails exactly for coordinates that are no cell of the grid or a value
/// that is no byte. A negative coordinate is reported first, with the two
/// coordinates as they were popped; then a value that is no byte, with that
/// value; then coordinates beyond the grid. Either way the three values stay
/// popped and the grid is as it was.
pub proof fn lemma_put_checks_bounds(state: State)
    ensures
        state.put().result is Ok <==> state.field.holds(
            state.first() as int,
            state.second() as int,
        ) && is_byte(state.third()),
        state.first() < 0 || state.second() < 0 ==> state.put()
            == state.popped().popped().popped().failed(
            InterpreterError::InvalidCoordinates { x: state.second(), y: state.first() },
        ),
        state.first() >= 0 && state.second() >= 0 && !is_byte(state.third()) ==> state.put()
            == state.popped().popped().popped().failed(
            InterpreterError::InvalidAscii(state.third()),
        ),
        is_byte(state.third()) && !state.field.holds(state.first() as int, state.second() as int)
            ==> state.put() == state.popped().popped().popped().failed(
            InterpreterError::InvalidCoordinates { x: state.second(), y: state.first() },
        ),
        state.put().result is Err ==> state.put().state.field == state.field,
{
}

/// `,` fails exactly for a value that is no byte, with that value, and
/// writes nothing then.
pub proof fn lemma_output_checks_byte(state: State)
    ensures
        state.character_output().result is Ok <==> is_byte(state.first()),
        !is_byte(state.first()) ==> state.character_output() == state.popped().failed(
            InterpreterError::InvalidAscii(state.first()),
        ),
{
}

/// A cycle on `@` in normal mode stops the machine and changes nothing
/// else: the cursor stays where it is.
pub proof fn lemma_halt_ends_cycle(state: State, chosen: Direction)
    requires
        state.loaded(),
        state.mode == Mode::Normal,
        state.field.current() == '@',
    ensures
        state.cycle(chosen) == (State { running: false, ..state }).done(),
{
    reveal(State::execute);
    assert(decode('@') == Some(Instruction::Halt));
}

/// A run ends where the machine stops or fails: the cycles that the run
/// would still have had change nothing.
pub proof fn lemma_run_ends(state: State, chosen: Seq<Direction>, more: Seq<Direction>)
    requires
        state.run(chosen).result is Err || !state.run(chosen).state.running,
    ensures
        state.run(chosen + more) == state.run(chosen),
{
    if state.loaded() {
        crate::machine::lemma_cycles_stop(State { running: true, ..state }, chosen, more);
    }
}

/// Cycles keep the grid rectangular, of the same height and width, and the
/// cursor on it: a program that is loaded stays loaded.
pub proof fn lemma_cycles_keep_wf(state: State, chosen: Seq<Direction>)
    requires
        state.wf(),
    ensures
        state.cycles(chosen).state.wf(),
        state.cycles(chosen).state.field.height() == state.field.height(),
        state.cycles(chosen).state.field.width() == state.field.width(),
    decreases chosen.len(),
{
    if chosen.len() > 0 {
        lemma_cycles_keep_wf(state, chosen.drop_last());
        lemma_cycle_keeps_wf(state.cycles(chosen.drop_last()).state, chosen.last());
    }
}

/// A run halts with the first cycle that comes to `@` in normal mode. Where
/// the first `n - 1` cycles of a run neither fail nor stop the machine and
/// leave `@` under the cursor in normal mode, the run is the run of its
/// first `n` cycles, whatever headings follow: it ends well, with the
/// machine stopped and everything else as the first `n - 1` cycles left it.
pub proof fn lemma_run_ends_at_first_halt(state: State, chosen: Seq<Direction>, n: int)
    requires
        state.wf(),
        state.loaded(),
        1 <= n <= chosen.len(),
        state.run(chosen.take(n - 1)).result is Ok,
        state.run(chosen.take(n - 1)).state.running,
        state.run(chosen.take(n - 1)).state.mode == Mode::Normal,
        state.run(chosen.take(n - 1)).state.field.current() == '@',
    ensures
        state.run(chosen) == state.run(chosen.take(n)),
        state.run(chosen) == (State {
            running: false,
            ..state.run(chosen.take(n - 1)).state
        }).done(),
{
    let before = chosen.take(n - 1);
    lemma_cycles_keep_wf(State { running: true, ..state }, before);
    assert(chosen.take(n) == before.push(chosen[n - 1]));
    assert(before.push(chosen[n - 1]).drop_last() == before);
    lemma_halt_ends_cycle(state.run(before).state, chosen[n - 1]);
    assert(chosen == chosen.take(n) + chosen.skip(n));
    lemma_run_ends(state, chosen.take(n), chosen.skip(n));
}

/// Only `?` looks at the heading that a cycle is given.
pub proof fn lemma_cycle_ignores_heading(state: State, first: Direction, second: Direction)
    requires
        !state.asks_heading(),
    ensures
        state.cycle(first) == state.cycle(second),
{
    reveal(State::execute);
}

/// A cycle keeps the grid rectangular, of the same height and width, and
/// the cursor on it, whether it fails or not.
pub proof fn lemma_cycle_keeps_wf(state: State, chosen: Direction)
    requires
        state.wf(),
    ensures
        state.cycle(chosen).state.wf(),
        state.cycle(chosen).state.field.height() == state.field.height(),
        state.cycle(chosen).state.field.width() == state.field.width(),
{
    reveal(State::execute);
    if state.loaded() {
        let started = State { running: true, ..state };
        let outcome = started.dispatch(state.field.current(), chosen);
        lemma_advanced_wf(started.field, started.heading);
        if started.mode == Mode::Normal && decode(state.field.current()) == Some(
            Instruction::Put,
        ) {
            if outcome.result is Ok {
                lemma_with_cell(
                    started.field,
                    started.first() as int,
                    started.second() as int,
                    started.third() as u8 as char,
                );
            }
        }
        assert(outcome.state.wf());
        assert(outcome.state.field.height() == state.field.height());
        assert(outcome.state.field.width() == state.field.width());
        lemma_advanced_wf(outcome.state.field, outcome.state.heading);
    }
}

/// Only a quote changes the mode: a cycle that leaves another mode than it
/// found had a quote under the cursor.
pub proof fn lemma_mode_changes_at_quote(state: State, chosen: Direction)
    ensures
        state.cycle(chosen).state.mode != state.mode ==> state.loaded() && state.field.current()
            == '"',
        state.loaded() && state.field.current() == '"' ==> state.cycle(chosen).state.mode
            != state.mode && state.cycle(chosen).result is Ok,
{
    reveal(State::execute);
}

/// Only `@` stops the machine: after a cycle on a loaded program the machine
/// is running unless the cycle ran `@` in normal mode.
pub proof fn lemma_only_halt_stops(state: State, chosen: Direction)
    requires
        state.loaded(),
    ensures
        state.cycle(chosen).state.running <==> !(state.mode == Mode::Normal
            && state.field.current() == '@'),
{
    reveal(State::execute);
}

/// String mode never fails and runs no instruction: whatever is under the
/// cursor but a quote is pushed as its code, and the cursor moves on.
pub proof fn lemma_string_mode_pushes(state: State, chosen: Direction)
    requires
        state.loaded(),
        state.mode == Mode::StringLiteral,
        state.field.current() != '"',
    ensures
        state.cycle(chosen) == (State { running: true, ..state }).pushed(
            state.field.current() as isize,
        ).moved().done(),
{
}

/// Loading keeps the stack, the input and the output, and leaves the cursor
/// on the grid.
pub proof fn lemma_load_keeps_stack(state: State, text: Seq<char>)
    requires
        state.wf(),
    ensures
        state.load(text).stack == state.stack,
        state.load(text).input == state.input,
        state.load(text).output == state.output,
        state.load(text).wf(),
        text.len() > 0 ==> state.load(text).field.row == 0 && state.load(text).field.col == 0
            && state.load(text).heading == Direction::Right && state.load(text).mode
            == Mode::Normal,
{
    crate::grid::lemma_grid_of_shape(text);
}

} // verus!
