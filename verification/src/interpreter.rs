use crate::error::InterpreterError;
use crate::grid::{rows_of, Field, Grid};
use crate::heading::{Direction, HeadingSource, Mode};
use crate::input::Input;
use crate::machine::{
    decode, divide_wrapping, instruction_of, is_byte, lemma_cycles_stop, remainder_wrapping,
    InputRequest, Instruction, Outcome, State,
};
use crate::numeral::{decimal_bytes, parse_isize};
use crate::stack::Stack;
use crate::text::trim;
use vstd::prelude::*;

verus! {

/// The execution engine: a stack, a program with its cursor, the mode, the
/// input still to be read, the output written so far, and a source of
/// headings for `?`.
///
/// The host supplies input, output buffer and source of headings when it
/// makes the engine, feeds more input whenever it likes, and takes the
/// output away when it likes. Between two calls every part of the state can
/// be looked at.
#[derive(Debug)]
pub struct Interpreter<G: HeadingSource> {
    stack: Stack<isize>,
    program: Grid,
    direction: Direction,
    mode: Mode,
    input: Input,
    output: Vec<u8>,
    gen: G,
    running: bool,
}

impl<G: HeadingSource> View for Interpreter<G> {
    type V = State;

    closed spec fn view(&self) -> State {
        State {
            stack: self.stack@,
            fallback: self.stack.fallback(),
            field: self.program@,
            heading: self.direction,
            mode: self.mode,
            running: self.running,
            input: self.input@,
            output: self.output@,
        }
    }
}

/// The state of an engine that has not loaded a program yet.
pub open spec fn initial_state(input: Seq<u8>, output: Seq<u8>) -> State {
    State {
        stack: Seq::empty(),
        fallback: 0,
        field: Field { cells: Seq::empty(), row: 0, col: 0 },
        heading: Direction::Right,
        mode: Mode::Normal,
        running: false,
        input,
        output,
    }
}

impl<G: HeadingSource> Interpreter<G> {
    /// The source of headings that the engine owns. Nothing but a cycle
    /// that runs `?` touches it.
    pub closed spec fn source(&self) -> G {
        self.gen
    }

    /// An engine without a program, with an empty stack whose pops yield 0
    /// when nothing is left, that reads `input`, writes behind `output` and
    /// takes its headings from `gen`.
    pub fn new(input: Vec<u8>, output: Vec<u8>, gen: G) -> (interpreter: Self)
        ensures
            interpreter@ == initial_state(input@, output@),
            interpreter.source() == gen,
            interpreter@.wf(),
    {
        let stack = Stack::new(0);
        let program = Grid::new();
        let direction = Direction::Right;
        let mode = Mode::Normal;
        let running = false;
        Interpreter {
            stack,
            program,
            direction,
            mode,
            input: Input::new(input),
            output,
            gen,
            running,
        }
    }

    /// Loads the program that `program` spells. An empty text changes
    /// nothing. Any other text replaces the grid, puts the cursor on its
    /// first cell heading right and sets normal mode; stack, input and
    /// output stay as they are. No text is refused.
    pub fn load_program(&mut self, program: &str) -> (loaded: Result<(), InterpreterError>)
        ensures
            loaded is Ok,
            final(self)@ == old(self)@.load(program@),
            final(self)@.wf(),
            final(self).source() == old(self).source(),
    {
        if program.is_empty() {
            proof {
                use_type_invariant(&self.program);
            }
            return Ok(());
        }
        self.program = Grid::from_text(program);
        self.direction = Direction::Right;
        self.mode = Mode::Normal;
        Ok(())
    }

    /// Runs until the program halts or fails. See `run_for`: the run is that
    /// of `u64::MAX` cycles, a number that no run reaches.
    pub fn run(&mut self) -> (ended: Result<(), InterpreterError>)
        ensures
            exists|chosen: Seq<Direction>|
                {
                    &&& chosen.len() == u64::MAX
                    &&& #[trigger] old(self)@.run(chosen) == (Outcome {
                        state: final(self)@,
                        result: ended,
                    })
                    &&& !old(self)@.run_asks(chosen) ==> final(self).source() == old(
                        self,
                    ).source()
                },
            final(self)@.wf(),
    {
        self.run_for(u64::MAX)
    }

    /// Runs until the program halts or fails, or `limit` cycles are done:
    /// nothing where no program is loaded; else the machine is set running
    /// and makes one cycle after the other. Each `?` takes its heading from
    /// the source, and `chosen` below holds the headings of the cycles. A
    /// failure ends the run with the state at the point of failure. After
    /// `Ok`, the machine is still running exactly if the limit ended the
    /// run. The source of headings is as it was unless a cycle of the run
    /// asked it.
    pub fn run_for(&mut self, limit: u64) -> (ended: Result<(), InterpreterError>)
        ensures
            exists|chosen: Seq<Direction>|
                {
                    &&& chosen.len() == limit
                    &&& #[trigger] old(self)@.run(chosen) == (Outcome {
                        state: final(self)@,
                        result: ended,
                    })
                    &&& !old(self)@.run_asks(chosen) ==> final(self).source() == old(
                        self,
                    ).source()
                },
            final(self)@.wf(),
    {
        if self.program.is_empty() {
            proof {
                let chosen = Seq::new(limit as nat, |k: int| Direction::Right);
                assert(old(self)@.run(chosen) == self@.done());
                assert(!old(self)@.run_asks(chosen));
            }
            return Ok(());
        }
        self.running = true;
        let ghost start = self@;
        let ghost mut taken: Seq<Direction> = Seq::empty();
        let mut left: u64 = limit;
        while self.running && left > 0
            invariant
                start == (State { running: true, ..old(self)@ }),
                old(self)@.loaded(),
                taken.len() + left == limit,
                start.cycles(taken) == self@.done(),
                !start.asks_during(taken) ==> self.source() == old(self).source(),
                self@.wf(),
            decreases left,
        {
            let ghost before = self@;
            let stepped = self.step();
            proof {
                let heading = self@.heading;
                assert(taken.push(heading).drop_last() == taken);
                assert(start.cycles(taken.push(heading)) == before.cycle(heading));
                taken = taken.push(heading);
            }
            left -= 1;
            match stepped {
                Err(error) => {
                    proof {
                        let rest = Seq::new(left as nat, |k: int| Direction::Right);
                        lemma_cycles_stop(start, taken, rest);
                        assert(old(self)@.run(taken + rest) == self@.failed(error));
                        assert(old(self)@.run_asks(taken + rest) == start.asks_during(taken));
                    }
                    return Err(error);
                },
                Ok(unit) => {
                    assert(unit == ());
                },
            }
        }
        proof {
            let rest = Seq::new(left as nat, |k: int| Direction::Right);
            if left > 0 {
                lemma_cycles_stop(start, taken, rest);
            } else {
                assert(taken + rest == taken);
            }
            assert(old(self)@.run(taken + rest) == self@.done());
            assert(old(self)@.run_asks(taken + rest) == start.asks_during(taken));
        }
        Ok(())
    }

    /// One cycle: nothing where no program is loaded; else the machine is
    /// set running, the character under the cursor is dispatched, and unless
    /// that failed or halted the machine, the cursor moves on one cell. A
    /// `?` asks the source for a heading, which is then the heading of the
    /// final state; no other instruction looks at the argument of `cycle`,
    /// and no other cycle touches the source.
    pub fn step(&mut self) -> (stepped: Result<(), InterpreterError>)
        ensures
            old(self)@.cycle(final(self)@.heading) == (Outcome {
                state: final(self)@,
                result: stepped,
            }),
            !old(self)@.asks_heading() ==> final(self).source() == old(self).source(),
            final(self)@.wf(),
    {
        let instruction = match self.get_instruction() {
            Some(instruction) => instruction,
            None => {
                return Ok(());
            },
        };
        self.running = true;
        proof {
            reveal(State::execute);
        }
        if self.mode == Mode::StringLiteral {
            if instruction == '"' {
                self.toggle_string_mode()?;
            } else {
                self.stack.push(instruction as isize);
            }
        } else {
            match instruction_of(instruction) {
                Some(Instruction::Add) => self.add()?,
                Some(Instruction::Subtract) => self.subtract()?,
                Some(Instruction::Multiply) => self.multiply()?,
                Some(Instruction::Divide) => self.divide()?,
                Some(Instruction::Remainder) => self.remainder()?,
                Some(Instruction::Not) => self.logical_not()?,
                Some(Instruction::Greater) => self.greater_than()?,
                Some(Instruction::Turn(Direction::Right)) => self.start_moving_right()?,
                Some(Instruction::Turn(Direction::Left)) => self.start_moving_left()?,
                Some(Instruction::Turn(Direction::Up)) => self.start_moving_up()?,
                Some(Instruction::Turn(Direction::Down)) => self.start_moving_down()?,
                Some(Instruction::TurnRandomly) => self.start_moving_randomly()?,
                Some(Instruction::HorizontalIf) => self.horizontal_if()?,
                Some(Instruction::VerticalIf) => self.vertical_if()?,
                Some(Instruction::Quote) => self.toggle_string_mode()?,
                Some(Instruction::Duplicate) => self.duplicate_top_of_the_stack()?,
                Some(Instruction::Swap) => self.swap_top_stack_values()?,
                Some(Instruction::Discard) => self.pop_and_discard()?,
                Some(Instruction::OutputInteger) => self.pop_and_output_int()?,
                Some(Instruction::OutputCharacter) => self.pop_and_output_char()?,
                Some(Instruction::Bridge) => self.bridge()?,
                Some(Instruction::Put) => self.put()?,
                Some(Instruction::Get) => self.get()?,
                Some(Instruction::InputInteger) => self.get_int_and_push()?,
                Some(Instruction::InputCharacter) => self.get_char_and_push()?,
                Some(Instruction::Blank) => (),
                Some(Instruction::Halt) => self.running = false,
                Some(Instruction::Digit(digit)) => self.push_digit_to_stack(digit)?,
                None => {
                    return Err(InterpreterError::UnknownInstruction(instruction));
                },
            }
        }
        if self.running {
            self.move_pc();
        }
        Ok(())
    }

    /// The values on the stack, the top last.
    pub fn get_stack(&self) -> (stack: &[isize])
        ensures
            stack@ == self@.stack,
    {
        self.stack.as_slice()
    }

    /// Pops the stack as an instruction would: 0 where nothing is left.
    pub fn pop(&mut self) -> (value: isize)
        ensures
            value == old(self)@.first(),
            final(self)@ == old(self)@.popped(),
            final(self).source() == old(self).source(),
    {
        self.stack.pop()
    }

    /// Empties the stack. Nothing else ever does: a program that is loaded
    /// finds the stack as the last one left it.
    pub fn clear_stack(&mut self)
        ensures
            final(self)@ == (State { stack: Seq::empty(), ..old(self)@ }),
            final(self).source() == old(self).source(),
    {
        self.stack.clear();
    }

    /// Everything written so far.
    pub fn get_output(&self) -> (output: &Vec<u8>)
        ensures
            output@ == self@.output,
    {
        &self.output
    }

    /// Puts `output` in the place of what was written so far.
    pub fn set_output(&mut self, output: Vec<u8>)
        ensures
            final(self)@ == (State { output: output@, ..old(self)@ }),
            final(self).source() == old(self).source(),
    {
        self.output = output;
    }

    /// Hands out what was written so far and starts the output afresh.
    pub fn take_output(&mut self) -> (output: Vec<u8>)
        ensures
            output@ == old(self)@.output,
            final(self)@ == (State { output: Seq::empty(), ..old(self)@ }),
            final(self).source() == old(self).source(),
    {
        let mut output: Vec<u8> = Vec::new();
        std::mem::swap(&mut self.output, &mut output);
        output
    }

    /// Puts `bytes` behind the input that has not been read yet.
    pub fn feed_input(&mut self, bytes: &[u8])
        ensures
            final(self)@ == (State { input: old(self)@.input + bytes@, ..old(self)@ }),
            final(self).source() == old(self).source(),
    {
        self.input.feed(bytes);
    }

    /// Puts `bytes` in the place of the input that has not been read yet.
    pub fn set_input(&mut self, bytes: Vec<u8>)
        ensures
            final(self)@ == (State { input: bytes@, ..old(self)@ }),
            final(self).source() == old(self).source(),
    {
        self.input = Input::new(bytes);
    }

    /// The number of bytes of input that have not been read yet.
    pub fn pending_input(&self) -> (count: usize)
        ensures
            count == self@.input.len(),
    {
        self.input.remaining()
    }

    /// Whether the machine is running: set by each cycle, cleared by `@`.
    pub fn get_enabled(&self) -> (running: bool)
        ensures
            running == self@.running,
    {
        self.running
    }

    /// The rows of the grid, from the top.
    pub fn get_program(&self) -> (rows: &Vec<Vec<char>>)
        ensures
            rows_of(rows@) == self@.field.cells,
    {
        self.program.rows()
    }

    /// The row and the column that the cursor is on.
    pub fn get_position(&self) -> (position: (usize, usize))
        ensures
            position.0 == self@.field.row,
            position.1 == self@.field.col,
    {
        (self.program.row(), self.program.col())
    }

    /// Where the cursor is heading.
    pub fn get_direction(&self) -> (heading: Direction)
        ensures
            heading == self@.heading,
    {
        self.direction
    }

    pub fn get_mode(&self) -> (mode: Mode)
        ensures
            mode == self@.mode,
    {
        self.mode
    }

    /// The instruction that the next cycle runs: none where no program is
    /// loaded, in string mode, and where the character under the cursor
    /// stands for no instruction.
    pub fn next_instruction(&self) -> (instruction: Option<Instruction>)
        ensures
            instruction == if self@.loaded() && self@.mode == Mode::Normal {
                decode(self@.field.current())
            } else {
                None
            },
    {
        if self.mode == Mode::StringLiteral {
            return None;
        }
        match self.get_instruction() {
            Some(c) => instruction_of(c),
            None => None,
        }
    }

    /// What the next cycle lacks of input. A host that reads its input as it
    /// is asked for fetches a line or a byte on this request and feeds it
    /// before the next cycle.
    pub fn input_request(&self) -> (request: InputRequest)
        ensures
            request == self@.input_request(),
    {
        match self.next_instruction() {
            Some(Instruction::InputInteger) => {
                if self.input.has_line() {
                    InputRequest::Nothing
                } else {
                    InputRequest::Line
                }
            },
            Some(Instruction::InputCharacter) => {
                if self.input.remaining() > 0 {
                    InputRequest::Nothing
                } else {
                    InputRequest::Byte
                }
            },
            _ => InputRequest::Nothing,
        }
    }

    /// Pops a value that must be a byte and hands out its character.
    fn pop_ascii(&mut self) -> (popped: Result<char, InterpreterError>)
        ensures
            final(self)@ == old(self)@.popped(),
            match popped {
                Ok(c) => is_byte(old(self)@.first()) && c == old(self)@.first() as u8 as char,
                Err(error) => !is_byte(old(self)@.first()) && error
                    == InterpreterError::InvalidAscii(old(self)@.first()),
            },
            final(self).source() == old(self).source(),
    {
        let value = self.stack.pop();
        if value < 0 || value > 255 {
            return Err(InterpreterError::InvalidAscii(value));
        }
        Ok(value as u8 as char)
    }

    /// The character under the cursor; `None` where no program is loaded.
    fn get_instruction(&self) -> (instruction: Option<char>)
        ensures
            instruction == if self@.loaded() {
                Some(self@.field.current())
            } else {
                None
            },
            self@.wf(),
    {
        self.program.current()
    }

    /// Moves the cursor one cell in its heading, around the edges.
    fn move_pc(&mut self)
        ensures
            final(self)@ == old(self)@.moved(),
            final(self)@.wf(),
            final(self).source() == old(self).source(),
    {
        self.program.advance(self.direction);
    }

    fn push_digit_to_stack(&mut self, digit: u8) -> (done: Result<(), InterpreterError>)
        ensures
            done is Ok,
            final(self)@ == old(self)@.push_digit(digit),
            final(self).source() == old(self).source(),
    {
        self.stack.push(digit as isize);
        Ok(())
    }

    fn add(&mut self) -> (done: Result<(), InterpreterError>)
        ensures
            done is Ok,
            final(self)@ == old(self)@.sum(),
            final(self).source() == old(self).source(),
    {
        let (a, b) = self.stack.pop2();
        self.stack.push(a.wrapping_add(b));
        Ok(())
    }

    fn subtract(&mut self) -> (done: Result<(), InterpreterError>)
        ensures
            done is Ok,
            final(self)@ == old(self)@.difference(),
            final(self).source() == old(self).source(),
    {
        let (a, b) = self.stack.pop2();
        self.stack.push(b.wrapping_sub(a));
        Ok(())
    }

    fn multiply(&mut self) -> (done: Result<(), InterpreterError>)
        ensures
            done is Ok,
            final(self)@ == old(self)@.product(),
            final(self).source() == old(self).source(),
    {
        let (a, b) = self.stack.pop2();
        self.stack.push(a.wrapping_mul(b));
        Ok(())
    }

    fn divide(&mut self) -> (done: Result<(), InterpreterError>)
        ensures
            done is Ok,
            final(self)@ == old(self)@.division(),
            final(self).source() == old(self).source(),
    {
        let (a, b) = self.stack.pop2();
        let n = divide_wrapping(b, a);
        self.stack.push(n);
        Ok(())
    }

    fn remainder(&mut self) -> (done: Result<(), InterpreterError>)
        ensures
            done is Ok,
            final(self)@ == old(self)@.modulo(),
            final(self).source() == old(self).source(),
    {
        let (a, b) = self.stack.pop2();
        let n = remainder_wrapping(b, a);
        self.stack.push(n);
        Ok(())
    }

    fn logical_not(&mut self) -> (done: Result<(), InterpreterError>)
        ensures
            done is Ok,
            final(self)@ == old(self)@.negation(),
            final(self).source() == old(self).source(),
    {
        let a = self.stack.pop();
        let n = if a == 0 {
            1
        } else {
            0
        };
        self.stack.push(n);
        Ok(())
    }

    fn greater_than(&mut self) -> (done: Result<(), InterpreterError>)
        ensures
            done is Ok,
            final(self)@ == old(self)@.comparison(),
            final(self).source() == old(self).source(),
    {
        let (a, b) = self.stack.pop2();
        let n = if b > a {
            1
        } else {
            0
        };
        self.stack.push(n);
        Ok(())
    }

    fn start_moving_right(&mut self) -> (done: Result<(), InterpreterError>)
        ensures
            done is Ok,
            final(self)@ == old(self)@.turned(Direction::Right),
            final(self).source() == old(self).source(),
    {
        self.direction = Direction::Right;
        Ok(())
    }

    fn start_moving_left(&mut self) -> (done: Result<(), InterpreterError>)
        ensures
            done is Ok,
            final(self)@ == old(self)@.turned(Direction::Left),
            final(self).source() == old(self).source(),
    {
        self.direction = Direction::Left;
        Ok(())
    }

    fn start_moving_up(&mut self) -> (done: Result<(), InterpreterError>)
        ensures
            done is Ok,
            final(self)@ == old(self)@.turned(Direction::Up),
            final(self).source() == old(self).source(),
    {
        self.direction = Direction::Up;
        Ok(())
    }

    fn start_moving_down(&mut self) -> (done: Result<(), InterpreterError>)
        ensures
            done is Ok,
            final(self)@ == old(self)@.turned(Direction::Down),
            final(self).source() == old(self).source(),
    {
        self.direction = Direction::Down;
        Ok(())
    }

    /// Takes the heading that the source chooses: whichever it is, nothing
    /// but the heading changes.
    fn start_moving_randomly(&mut self) -> (done: Result<(), InterpreterError>)
        ensures
            done is Ok,
            final(self)@ == old(self)@.turned(final(self)@.heading),
    {
        let direction = self.gen.choose_heading();
        self.set_heading(direction);
        Ok(())
    }

    /// Turns the cursor to `heading`.
    pub fn set_heading(&mut self, heading: Direction)
        ensures
            final(self)@ == old(self)@.turned(heading),
            final(self).source() == old(self).source(),
    {
        self.direction = heading;
    }

    fn horizontal_if(&mut self) -> (done: Result<(), InterpreterError>)
        ensures
            done is Ok,
            final(self)@ == old(self)@.horizontal_choice(),
            final(self).source() == old(self).source(),
    {
        let n = self.stack.pop();
        self.direction = if n == 0 {
            Direction::Right
        } else {
            Direction::Left
        };
        Ok(())
    }

    fn vertical_if(&mut self) -> (done: Result<(), InterpreterError>)
        ensures
            done is Ok,
            final(self)@ == old(self)@.vertical_choice(),
            final(self).source() == old(self).source(),
    {
        let n = self.stack.pop();
        self.direction = if n == 0 {
            Direction::Down
        } else {
            Direction::Up
        };
        Ok(())
    }

    fn toggle_string_mode(&mut self) -> (done: Result<(), InterpreterError>)
        ensures
            done is Ok,
            final(self)@ == old(self)@.toggled(),
            final(self).source() == old(self).source(),
    {
        self.mode = if self.mode == Mode::Normal {
            Mode::StringLiteral
        } else {
            Mode::Normal
        };
        Ok(())
    }

    fn duplicate_top_of_the_stack(&mut self) -> (done: Result<(), InterpreterError>)
        ensures
            done is Ok,
            final(self)@ == old(self)@.duplicated(),
            final(self).source() == old(self).source(),
    {
        let n = self.stack.pop();
        self.stack.push(n);
        self.stack.push(n);
        Ok(())
    }

    fn swap_top_stack_values(&mut self) -> (done: Result<(), InterpreterError>)
        ensures
            done is Ok,
            final(self)@ == old(self)@.swapped(),
            final(self).source() == old(self).source(),
    {
        let (a, b) = self.stack.pop2();
        self.stack.push(a);
        self.stack.push(b);
        Ok(())
    }

    fn pop_and_discard(&mut self) -> (done: Result<(), InterpreterError>)
        ensures
            done is Ok,
            final(self)@ == old(self)@.popped(),
            final(self).source() == old(self).source(),
    {
        let _ = self.stack.pop();
        Ok(())
    }

    fn pop_and_output_int(&mut self) -> (done: Result<(), InterpreterError>)
        ensures
            done is Ok,
            final(self)@ == old(self)@.integer_output(),
            final(self).source() == old(self).source(),
    {
        let n = self.stack.pop();
        let mut x = decimal_bytes(n);
        self.output.append(&mut x);
        Ok(())
    }

    fn pop_and_output_char(&mut self) -> (done: Result<(), InterpreterError>)
        ensures
            old(self)@.character_output() == (Outcome { state: final(self)@, result: done }),
            final(self).source() == old(self).source(),
    {
        let n = self.stack.pop();
        if n < 0 || n > 255 {
            return Err(InterpreterError::InvalidAscii(n));
        }
        self.output.push(n as u8);
        assert(self@.output == old(self)@.output + seq![n as u8]);
        Ok(())
    }

    fn get_int_and_push(&mut self) -> (done: Result<(), InterpreterError>)
        ensures
            old(self)@.integer_input() == (Outcome { state: final(self)@, result: done }),
            final(self).source() == old(self).source(),
    {
        let s = match self.input.read_line() {
            Ok(line) => line,
            Err(failure) => {
                return Err(InterpreterError::IoError(failure));
            },
        };
        let n = match parse_isize(trim(s.as_slice()).as_slice()) {
            Ok(n) => n,
            Err(failure) => {
                return Err(InterpreterError::ParseError(failure));
            },
        };
        self.stack.push(n);
        Ok(())
    }

    fn get_char_and_push(&mut self) -> (done: Result<(), InterpreterError>)
        ensures
            old(self)@.character_input() == (Outcome { state: final(self)@, result: done }),
            final(self).source() == old(self).source(),
    {
        let s = match self.input.read_byte() {
            Ok(byte) => byte,
            Err(failure) => {
                return Err(InterpreterError::IoError(failure));
            },
        };
        let n = s as isize;
        self.stack.push(n);
        Ok(())
    }

    fn bridge(&mut self) -> (done: Result<(), InterpreterError>)
        ensures
            done is Ok,
            final(self)@ == old(self)@.bridged(),
            final(self).source() == old(self).source(),
    {
        self.move_pc();
        Ok(())
    }

    fn put(&mut self) -> (done: Result<(), InterpreterError>)
        ensures
            old(self)@.put() == (Outcome { state: final(self)@, result: done }),
            final(self).source() == old(self).source(),
    {
        let y = self.stack.pop();
        let x = self.stack.pop();
        let v = self.pop_ascii();
        if y < 0 || x < 0 {
            return Err(InterpreterError::InvalidCoordinates { x, y });
        }
        let y_ = y as usize;
        let x_ = x as usize;
        let v = v?;
        if !self.program.put(y_, x_, v) {
            return Err(InterpreterError::InvalidCoordinates { x, y });
        }
        Ok(())
    }

    fn get(&mut self) -> (done: Result<(), InterpreterError>)
        ensures
            old(self)@.get() == (Outcome { state: final(self)@, result: done }),
            final(self).source() == old(self).source(),
    {
        let y = self.stack.pop();
        let x = self.stack.pop();
        if y < 0 || x < 0 {
            return Err(InterpreterError::InvalidCoordinates { x, y });
        }
        let y_ = y as usize;
        let x_ = x as usize;
        let c = match self.program.get(y_, x_) {
            Some(c) => c,
            None => {
                return Err(InterpreterError::InvalidCoordinates { x, y });
            },
        };
        self.stack.push(c as isize);
        Ok(())
    }
}

} // verus!
