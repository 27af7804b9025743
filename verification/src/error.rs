use vstd::prelude::*;

verus! {

/// Why the input buffer could not serve a read.
#[derive(Clone, Copy, Debug, PartialEq, Eq, Structural)]
pub enum IoFailure {
    /// A byte was asked for and none was left.
    UnexpectedEof,
    /// The line that was read is not valid UTF-8.
    InvalidData,
}

/// Why a line of input is not a signed decimal integer.
#[derive(Clone, Copy, Debug, PartialEq, Eq, Structural)]
pub enum ParseFailure {
    /// The text is empty.
    Empty,
    /// A character other than a decimal digit where a digit must stand, or a
    /// sign with nothing after it.
    InvalidDigit,
    /// The number is too large to be held.
    PosOverflow,
    /// The number is too small to be held.
    NegOverflow,
}

/// Everything that can end a cycle early. None of these is recovered from.
#[derive(Clone, Copy, Debug, PartialEq, Eq, Structural)]
pub enum InterpreterError {
    /// A read from the input failed.
    IoError(IoFailure),
    /// The cell under the cursor holds no instruction.
    UnknownInstruction(char),
    /// A value popped for character output or for a write to the grid is not
    /// a byte.
    InvalidAscii(isize),
    /// The target of a read from or a write to the grid is negative or lies
    /// outside the grid.
    InvalidCoordinates { x: isize, y: isize },
    /// The line read for integer input is not a signed integer.
    ParseError(ParseFailure),
}

} // verus!
