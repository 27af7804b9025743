use crate::error::InterpreterError;
use crate::grid::Field;
use crate::heading::{Direction, Mode};
use crate::input::{line_span, line_text};
use crate::numeral::{decimal_of, parse_integer};
use crate::stack::{below_top, top_or};
use crate::text::trimmed;
use vstd::prelude::*;
use vstd::wrapping::isize_specs::{wrapping_add, wrapping_mul, wrapping_sub};

verus! {

/// What a cell can ask of the machine in normal mode.
#[derive(Clone, Copy, Debug, PartialEq, Eq, Structural)]
pub enum Instruction {
    /// `0` to `9`: push the digit's value.
    Digit(u8),
    /// `+`
    Add,
    /// `-`
    Subtract,
    /// `*`
    Multiply,
    /// `/`
    Divide,
    /// `%`
    Remainder,
    /// `!`
    Not,
    /// `` ` ``
    Greater,
    /// `>`, `<`, `^` and `v`: take the heading given.
    Turn(Direction),
    /// `?`: take a heading from the source of headings.
    TurnRandomly,
    /// `_`
    HorizontalIf,
    /// `|`
    VerticalIf,
    /// `"`
    Quote,
    /// `:`
    Duplicate,
    /// `\`
    Swap,
    /// `$`
    Discard,
    /// `.`
    OutputInteger,
    /// `,`
    OutputCharacter,
    /// `#`
    Bridge,
    /// `p`
    Put,
    /// `g`
    Get,
    /// `&`
    InputInteger,
    /// `~`
    InputCharacter,
    /// A space: nothing.
    Blank,
    /// `@`
    Halt,
}

/// What the next cycle lacks of input, for the host to fetch before it lets
/// the cycle run.
#[derive(Clone, Copy, Debug, PartialEq, Eq, Structural)]
pub enum InputRequest {
    /// The cycle reads nothing, or what it reads is there.
    Nothing,
    /// The cycle reads a line, and no whole line is there.
    Line,
    /// The cycle reads a byte, and none is there.
    Byte,
}

/// The instruction that `c` stands for in normal mode, if it stands for one.
pub open spec fn decode(c: char) -> Option<Instruction> {
    if '0' <= c <= '9' {
        Some(Instruction::Digit((c as int - 48) as u8))
    } else if c == '+' {
        Some(Instruction::Add)
    } else if c == '-' {
        Some(Instruction::Subtract)
    } else if c == '*' {
        Some(Instruction::Multiply)
    } else if c == '/' {
        Some(Instruction::Divide)
    } else if c == '%' {
        Some(Instruction::Remainder)
    } else if c == '!' {
        Some(Instruction::Not)
    } else if c == '`' {
        Some(Instruction::Greater)
    } else if c == '>' {
        Some(Instruction::Turn(Direction::Right))
    } else if c == '<' {
        Some(Instruction::Turn(Direction::Left))
    } else if c == '^' {
        Some(Instruction::Turn(Direction::Up))
    } else if c == 'v' {
        Some(Instruction::Turn(Direction::Down))
    } else if c == '?' {
        Some(Instruction::TurnRandomly)
    } else if c == '_' {
        Some(Instruction::HorizontalIf)
    } else if c == '|' {
        Some(Instruction::VerticalIf)
    } else if c == '"' {
        Some(Instruction::Quote)
    } else if c == ':' {
        Some(Instruction::Duplicate)
    } else if c == '\\' {
        Some(Instruction::Swap)
    } else if c == '$' {
        Some(Instruction::Discard)
    } else if c == '.' {
        Some(Instruction::OutputInteger)
    } else if c == ',' {
        Some(Instruction::OutputCharacter)
    } else if c == '#' {
        Some(Instruction::Bridge)
    } else if c == 'p' {
        Some(Instruction::Put)
    } else if c == 'g' {
        Some(Instruction::Get)
    } else if c == '&' {
        Some(Instruction::InputInteger)
    } else if c == '~' {
        Some(Instruction::InputCharacter)
    } else if c == ' ' {
        Some(Instruction::Blank)
    } else if c == '@' {
        Some(Instruction::Halt)
    } else {
        None
    }
}

/// `dividend / divisor` rounded towards zero, for a divisor other than 0.
pub open spec fn truncated_quotient(dividend: int, divisor: int) -> int {
    if dividend >= 0 {
        if divisor > 0 {
            dividend / divisor
        } else {
            -(dividend / (-divisor))
        }
    } else {
        if divisor > 0 {
            -((-dividend) / divisor)
        } else {
            (-dividend) / (-divisor)
        }
    }
}

/// What `dividend / divisor` leaves over when it is rounded towards zero,
/// for a divisor other than 0: it has the sign of the dividend.
pub open spec fn truncated_remainder(dividend: int, divisor: int) -> int {
    let magnitude = if divisor > 0 {
        divisor
    } else {
        -divisor
    };
    if dividend >= 0 {
        dividend % magnitude
    } else {
        -((-dividend) % magnitude)
    }
}

/// What `/` pushes for `a` on top of `b`: `b / a` rounded towards zero, and
/// 0 for `a == 0`. The one quotient that `isize` cannot hold, that of
/// `isize::MIN` by -1, wraps around to `isize::MIN`.
pub open spec fn quotient(a: isize, b: isize) -> isize {
    if a == 0 {
        0
    } else if b == isize::MIN && a == -1 {
        isize::MIN
    } else {
        truncated_quotient(b as int, a as int) as isize
    }
}

/// What `%` pushes for `a` on top of `b`: the remainder of `b / a`, and 0 for
/// `a == 0`.
pub open spec fn remainder(a: isize, b: isize) -> isize {
    if a == 0 {
        0
    } else {
        truncated_remainder(b as int, a as int) as isize
    }
}

/// Whether `value` is the code of a byte.
pub open spec fn is_byte(value: isize) -> bool {
    0 <= value <= 255
}

/// The whole of the machine between two cycles.
pub struct State {
    /// The values on the stack, the top last.
    pub stack: Seq<isize>,
    /// What a pop of the empty stack yields.
    pub fallback: isize,
    /// The program and where the cursor is on it.
    pub field: Field,
    /// Where the cursor is heading.
    pub heading: Direction,
    pub mode: Mode,
    /// False from the halt instruction on, until the next cycle.
    pub running: bool,
    /// The input that has not been read yet.
    pub input: Seq<u8>,
    /// Everything written so far.
    pub output: Seq<u8>,
}

/// How an instruction or a cycle ends: the state it leaves and whether it
/// failed. A failure rolls nothing back: `state` is the state at the point
/// of failure.
pub struct Outcome {
    pub state: State,
    pub result: Result<(), InterpreterError>,
}

impl State {
    /// The grid is rectangular, and the cursor is on a cell wherever there
    /// is one.
    pub open spec fn wf(self) -> bool {
        self.field.wf()
    }

    /// Whether a program is loaded: the grid has a cell.
    pub open spec fn loaded(self) -> bool {
        self.field.has_cells()
    }

    /// The value that the first pop yields.
    pub open spec fn first(self) -> isize {
        top_or(self.stack, self.fallback)
    }

    /// The value that the second pop yields.
    pub open spec fn second(self) -> isize {
        top_or(below_top(self.stack), self.fallback)
    }

    /// The value that the third pop yields.
    pub open spec fn third(self) -> isize {
        top_or(below_top(below_top(self.stack)), self.fallback)
    }

    /// This state after one pop.
    pub open spec fn popped(self) -> State {
        State { stack: below_top(self.stack), ..self }
    }

    /// This state after a push of `value`.
    pub open spec fn pushed(self, value: isize) -> State {
        State { stack: self.stack.push(value), ..self }
    }

    /// This state with the cursor heading in `heading`.
    pub open spec fn turned(self, heading: Direction) -> State {
        State { heading, ..self }
    }

    /// This state with the cursor one cell further in its heading.
    pub open spec fn moved(self) -> State {
        State { field: self.field.advanced(self.heading), ..self }
    }

    /// This state with `bytes` written behind the output.
    pub open spec fn written(self, bytes: Seq<u8>) -> State {
        State { output: self.output + bytes, ..self }
    }

    /// The end of an instruction that did not fail.
    pub open spec fn done(self) -> Outcome {
        Outcome { state: self, result: Ok(()) }
    }

    /// The end of an instruction that failed with `error`.
    pub open spec fn failed(self, error: InterpreterError) -> Outcome {
        Outcome { state: self, result: Err(error) }
    }

    /// A digit pushes its value.
    pub open spec fn push_digit(self, digit: u8) -> State {
        self.pushed(digit as isize)
    }

    /// `+` pops `a`, then `b`, and pushes `a + b`, wrapping around at the
    /// ends of `isize`.
    pub open spec fn sum(self) -> State {
        self.popped().popped().pushed(wrapping_add(self.first(), self.second()))
    }

    /// `-` pops `a`, then `b`, and pushes `b - a`, wrapping around.
    pub open spec fn difference(self) -> State {
        self.popped().popped().pushed(wrapping_sub(self.second(), self.first()))
    }

    /// `*` pops `a`, then `b`, and pushes `a * b`, wrapping around.
    pub open spec fn product(self) -> State {
        self.popped().popped().pushed(wrapping_mul(self.first(), self.second()))
    }

    /// `/` pops `a`, then `b`, and pushes `b / a`, or 0 for `a == 0`.
    pub open spec fn division(self) -> State {
        self.popped().popped().pushed(quotient(self.first(), self.second()))
    }

    /// `%` pops `a`, then `b`, and pushes the remainder of `b / a`, or 0 for
    /// `a == 0`.
    pub open spec fn modulo(self) -> State {
        self.popped().popped().pushed(remainder(self.first(), self.second()))
    }

    /// `!` pops `a` and pushes 1 for `a == 0`, else 0.
    pub open spec fn negation(self) -> State {
        self.popped().pushed(
            if self.first() == 0 {
                1
            } else {
                0
            },
        )
    }

    /// `` ` `` pops `a`, then `b`, and pushes 1 for `b > a`, else 0.
    pub open spec fn comparison(self) -> State {
        self.popped().popped().pushed(
            if self.second() > self.first() {
                1
            } else {
                0
            },
        )
    }

    /// `_` pops a value and heads right for 0, else left.
    pub open spec fn horizontal_choice(self) -> State {
        self.popped().turned(
            if self.first() == 0 {
                Direction::Right
            } else {
                Direction::Left
            },
        )
    }

    /// `|` pops a value and heads down for 0, else up.
    pub open spec fn vertical_choice(self) -> State {
        self.popped().turned(
            if self.first() == 0 {
                Direction::Down
            } else {
                Direction::Up
            },
        )
    }

    /// `"` changes from normal mode to string mode, and back.
    pub open spec fn toggled(self) -> State {
        State {
            mode: if self.mode == Mode::Normal {
                Mode::StringLiteral
            } else {
                Mode::Normal
            },
            ..self
        }
    }

    /// `:` pops a value and pushes it twice.
    pub open spec fn duplicated(self) -> State {
        self.popped().pushed(self.first()).pushed(self.first())
    }

    /// `\` pops `a`, then `b`, and pushes `a`, then `b`.
    pub open spec fn swapped(self) -> State {
        self.popped().popped().pushed(self.first()).pushed(self.second())
    }

    /// `.` pops a value and writes its decimal text.
    pub open spec fn integer_output(self) -> State {
        self.popped().written(decimal_of(self.first() as int))
    }

    /// `,` pops a value and writes it as one byte. A value that is no byte
    /// fails, popped all the same.
    pub open spec fn character_output(self) -> Outcome {
        if is_byte(self.first()) {
            self.popped().written(seq![self.first() as u8]).done()
        } else {
            self.popped().failed(InterpreterError::InvalidAscii(self.first()))
        }
    }

    /// `#` moves the cursor one cell, on top of the move that ends the cycle.
    pub open spec fn bridged(self) -> State {
        self.moved()
    }

    /// `p` pops `y`, `x` and a value, in this order, and writes the value as
    /// a character to row `y`, column `x`. It fails, with the three popped,
    /// on a negative coordinate, then on a value that is no byte, then on a
    /// cell outside the grid.
    pub open spec fn put(self) -> Outcome {
        let y = self.first();
        let x = self.second();
        let value = self.third();
        let popped = self.popped().popped().popped();
        if x < 0 || y < 0 {
            popped.failed(InterpreterError::InvalidCoordinates { x, y })
        } else if !is_byte(value) {
            popped.failed(InterpreterError::InvalidAscii(value))
        } else if !self.field.holds(y as int, x as int) {
            popped.failed(InterpreterError::InvalidCoordinates { x, y })
        } else {
            (State {
                field: self.field.with_cell(y as int, x as int, value as u8 as char),
                ..popped
            }).done()
        }
    }

    /// `g` pops `y`, then `x`, and pushes the code of the character in row
    /// `y`, column `x`. It fails, with the two popped, for a cell outside the
    /// grid.
    pub open spec fn get(self) -> Outcome {
        let y = self.first();
        let x = self.second();
        let popped = self.popped().popped();
        if self.field.holds(y as int, x as int) {
            popped.pushed(self.field.cells[y as int][x as int] as isize).done()
        } else {
            popped.failed(InterpreterError::InvalidCoordinates { x, y })
        }
    }

    /// `&` takes the next line of the input and pushes the integer that it
    /// spells, white space at its ends aside. The line is taken also where
    /// it is not valid UTF-8 or spells no integer, and the instruction fails.
    pub open spec fn integer_input(self) -> Outcome {
        let span = line_span(self.input);
        let taken = State { input: self.input.skip(span), ..self };
        match line_text(self.input.take(span)) {
            Err(failure) => taken.failed(InterpreterError::IoError(failure)),
            Ok(text) => match parse_integer(trimmed(text)) {
                Err(failure) => taken.failed(InterpreterError::ParseError(failure)),
                Ok(value) => taken.pushed(value as isize).done(),
            },
        }
    }

    /// `~` takes the next byte of the input and pushes it. It fails where no
    /// byte is left.
    pub open spec fn character_input(self) -> Outcome {
        if self.input.len() > 0 {
            (State { input: self.input.skip(1), ..self }).pushed(self.input[0] as isize).done()
        } else {
            self.failed(InterpreterError::IoError(crate::error::IoFailure::UnexpectedEof))
        }
    }

    /// `@` stops the machine.
    pub open spec fn halted(self) -> State {
        State { running: false, ..self }
    }

    /// What `instruction` does to this state. `chosen` is the heading that
    /// `?` takes; no other instruction looks at it.
    #[verifier::opaque]
    pub open spec fn execute(self, instruction: Instruction, chosen: Direction) -> Outcome {
        match instruction {
            Instruction::Digit(digit) => self.push_digit(digit).done(),
            Instruction::Add => self.sum().done(),
            Instruction::Subtract => self.difference().done(),
            Instruction::Multiply => self.product().done(),
            Instruction::Divide => self.division().done(),
            Instruction::Remainder => self.modulo().done(),
            Instruction::Not => self.negation().done(),
            Instruction::Greater => self.comparison().done(),
            Instruction::Turn(heading) => self.turned(heading).done(),
            Instruction::TurnRandomly => self.turned(chosen).done(),
            Instruction::HorizontalIf => self.horizontal_choice().done(),
            Instruction::VerticalIf => self.vertical_choice().done(),
            Instruction::Quote => self.toggled().done(),
            Instruction::Duplicate => self.duplicated().done(),
            Instruction::Swap => self.swapped().done(),
            Instruction::Discard => self.popped().done(),
            Instruction::OutputInteger => self.integer_output().done(),
            Instruction::OutputCharacter => self.character_output(),
            Instruction::Bridge => self.bridged().done(),
            Instruction::Put => self.put(),
            Instruction::Get => self.get(),
            Instruction::InputInteger => self.integer_input(),
            Instruction::InputCharacter => self.character_input(),
            Instruction::Blank => self.done(),
            Instruction::Halt => self.halted().done(),
        }
    }

    /// What the character `c` under the cursor does to this state: in string
    /// mode a quote ends the mode and every other character pushes its code;
    /// in normal mode the character is run as an instruction, and fails
    /// where it stands for none.
    pub open spec fn dispatch(self, c: char, chosen: Direction) -> Outcome {
        if self.mode == Mode::StringLiteral {
            if c == '"' {
                self.toggled().done()
            } else {
                self.pushed(c as isize).done()
            }
        } else {
            match decode(c) {
                Some(instruction) => self.execute(instruction, chosen),
                None => self.failed(InterpreterError::UnknownInstruction(c)),
            }
        }
    }

    /// One cycle: nothing where no program is loaded; else the machine is
    /// set running, the character under the cursor is dispatched, and unless
    /// that failed or halted the machine, the cursor moves one cell in its
    /// heading.
    pub open spec fn cycle(self, chosen: Direction) -> Outcome {
        if !self.loaded() {
            self.done()
        } else {
            let outcome = (State { running: true, ..self }).dispatch(self.field.current(), chosen);
            if outcome.result is Ok && outcome.state.running {
                outcome.state.moved().done()
            } else {
                outcome
            }
        }
    }

    /// Whether the next cycle asks the source of headings for one: a program
    /// is loaded, the mode is normal and `?` is under the cursor.
    pub open spec fn asks_heading(self) -> bool {
        self.loaded() && self.mode == Mode::Normal && self.field.current() == '?'
    }

    /// What the next cycle lacks of input: a line where `&` is about to run
    /// and no line feed is among the unread input, a byte where `~` is about
    /// to run and no input is unread, and nothing otherwise. A cycle that
    /// runs while input is lacking reads what is there: `&` takes the rest
    /// of the input for its line, and `~` fails.
    pub open spec fn input_request(self) -> InputRequest {
        if self.loaded() && self.mode == Mode::Normal {
            match decode(self.field.current()) {
                Some(Instruction::InputInteger) => if self.input.contains(10u8) {
                    InputRequest::Nothing
                } else {
                    InputRequest::Line
                },
                Some(Instruction::InputCharacter) => if self.input.len() > 0 {
                    InputRequest::Nothing
                } else {
                    InputRequest::Byte
                },
                _ => InputRequest::Nothing,
            }
        } else {
            InputRequest::Nothing
        }
    }

    /// The cycles that take the headings `chosen`, one after the other, as
    /// long as the machine is running and none has failed: what the last of
    /// them leaves.
    pub open spec fn cycles(self, chosen: Seq<Direction>) -> Outcome
        decreases chosen.len(),
    {
        if chosen.len() == 0 {
            self.done()
        } else {
            let before = self.cycles(chosen.drop_last());
            if before.result is Ok && before.state.running {
                before.state.cycle(chosen.last())
            } else {
                before
            }
        }
    }

    /// A run: nothing where no program is loaded; else the machine is set
    /// running and makes the cycles that take `chosen`.
    pub open spec fn run(self, chosen: Seq<Direction>) -> Outcome {
        if !self.loaded() {
            self.done()
        } else {
            (State { running: true, ..self }).cycles(chosen)
        }
    }

    /// Whether one of the cycles that take `chosen` asks the source of
    /// headings for one.
    pub open spec fn asks_during(self, chosen: Seq<Direction>) -> bool
        decreases chosen.len(),
    {
        if chosen.len() == 0 {
            false
        } else {
            let before = self.cycles(chosen.drop_last());
            self.asks_during(chosen.drop_last()) || (before.result is Ok && before.state.running
                && before.state.asks_heading())
        }
    }

    /// Whether the run that takes `chosen` asks the source of headings for
    /// one.
    pub open spec fn run_asks(self, chosen: Seq<Direction>) -> bool {
        self.loaded() && (State { running: true, ..self }).asks_during(chosen)
    }

    /// This state with the program that `text` stands for: unchanged for an
    /// empty text; else the grid of the text, the cursor on its first cell
    /// heading right, and normal mode. Stack, input and output stay.
    pub open spec fn load(self, text: Seq<char>) -> State {
        if text.len() == 0 {
            self
        } else {
            State {
                field: Field { cells: crate::grid::grid_of(text), row: 0, col: 0 },
                heading: Direction::Right,
                mode: Mode::Normal,
                ..self
            }
        }
    }
}

/// Once the machine has stopped or failed, further headings change nothing,
/// and the source is asked for none of them.
pub proof fn lemma_cycles_stop(start: State, chosen: Seq<Direction>, more: Seq<Direction>)
    requires
        start.cycles(chosen).result is Err || !start.cycles(chosen).state.running,
    ensures
        start.cycles(chosen + more) == start.cycles(chosen),
        start.asks_during(chosen + more) == start.asks_during(chosen),
    decreases more.len(),
{
    if more.len() == 0 {
        assert(chosen + more == chosen);
    } else {
        assert((chosen + more).drop_last() == chosen + more.drop_last());
        lemma_cycles_stop(start, chosen, more.drop_last());
    }
}

/// The instruction that `c` stands for in normal mode, if it stands for one.
pub fn instruction_of(c: char) -> (instruction: Option<Instruction>)
    ensures
        instruction == decode(c),
{
    match c {
        '0'..='9' => Some(Instruction::Digit((c as u32 - 48) as u8)),
        '+' => Some(Instruction::Add),
        '-' => Some(Instruction::Subtract),
        '*' => Some(Instruction::Multiply),
        '/' => Some(Instruction::Divide),
        '%' => Some(Instruction::Remainder),
        '!' => Some(Instruction::Not),
        '`' => Some(Instruction::Greater),
        '>' => Some(Instruction::Turn(Direction::Right)),
        '<' => Some(Instruction::Turn(Direction::Left)),
        '^' => Some(Instruction::Turn(Direction::Up)),
        'v' => Some(Instruction::Turn(Direction::Down)),
        '?' => Some(Instruction::TurnRandomly),
        '_' => Some(Instruction::HorizontalIf),
        '|' => Some(Instruction::VerticalIf),
        '"' => Some(Instruction::Quote),
        ':' => Some(Instruction::Duplicate),
        '\\' => Some(Instruction::Swap),
        '$' => Some(Instruction::Discard),
        '.' => Some(Instruction::OutputInteger),
        ',' => Some(Instruction::OutputCharacter),
        '#' => Some(Instruction::Bridge),
        'p' => Some(Instruction::Put),
        'g' => Some(Instruction::Get),
        '&' => Some(Instruction::InputInteger),
        '~' => Some(Instruction::InputCharacter),
        ' ' => Some(Instruction::Blank),
        '@' => Some(Instruction::Halt),
        _ => None,
    }
}

/// A quotient rounded towards zero is no further from zero than the
/// dividend, and as far only for a divisor of 1 or -1 or a dividend of 0.
pub proof fn lemma_truncated_quotient_bounds(dividend: int, divisor: int)
    requires
        divisor != 0,
    ensures
        dividend >= 0 ==> -dividend <= truncated_quotient(dividend, divisor) <= dividend,
        dividend <= 0 ==> dividend <= truncated_quotient(dividend, divisor) <= -dividend,
        dividend < 0 && divisor < -1 ==> truncated_quotient(dividend, divisor) < -dividend,
{
    let magnitude = if dividend >= 0 {
        dividend
    } else {
        -dividend
    };
    let size = if divisor > 0 {
        divisor
    } else {
        -divisor
    };
    vstd::arithmetic::div_mod::lemma_div_pos_is_pos(magnitude, size);
    vstd::arithmetic::div_mod::lemma_div_nonincreasing(magnitude, size);
    if magnitude > 0 && size > 1 {
        vstd::arithmetic::div_mod::lemma_div_decreases(magnitude, size);
    }
}

/// `b / a` as `/` pushes it.
pub fn divide_wrapping(b: isize, a: isize) -> (n: isize)
    ensures
        n == quotient(a, b),
{
    if a == 0 {
        return 0;
    }
    proof {
        lemma_truncated_quotient_bounds(b as int, a as int);
    }
    match b.checked_div(a) {
        Some(n) => n,
        None => isize::MIN,
    }
}

/// The remainder of `b / a` as `%` pushes it.
pub fn remainder_wrapping(b: isize, a: isize) -> (n: isize)
    ensures
        n == remainder(a, b),
{
    if a == 0 {
        return 0;
    }
    proof {
        let size = if a > 0 {
            a as int
        } else {
            -(a as int)
        };
        let magnitude = if b >= 0 {
            b as int
        } else {
            -(b as int)
        };
        vstd::arithmetic::div_mod::lemma_mod_bound(magnitude, size);
        vstd::arithmetic::div_mod::lemma_mod_decreases(magnitude as nat, size as nat);
        if size == 1 {
            vstd::arithmetic::div_mod::lemma_mod_bound(magnitude, 1);
        }
    }
    match b.checked_rem(a) {
        Some(n) => n,
        None => 0,
    }
}

} // verus!
