//! An execution engine for a two-dimensional, stack-based language: a program
//! is a rectangular grid of characters that a cursor walks in one of four
//! headings, manipulating a stack of integers, reading input, writing output
//! and rewriting the grid itself.

pub mod error;
pub mod grid;
pub mod heading;
pub mod input;
pub mod interpreter;
pub mod laws;
pub mod machine;
pub mod numeral;
pub mod random;
pub mod stack;
pub mod text;

pub use error::{InterpreterError, IoFailure, ParseFailure};
pub use heading::{Direction, HeadingSource, Mode};
pub use stack::Stack;
pub use grid::Grid;
pub use input::Input;
pub use interpreter::Interpreter;
pub use machine::{InputRequest, Instruction};
pub use random::SeededHeadings;
