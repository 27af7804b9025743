use befunge93_rs::{Interpreter, InterpreterError, SeededHeadings};

const HELLO_WORLD: &str = "\"!dlroW olleH\">:#,_@\n";

const FACTORIAL: &str = "&>:1-:v v *_$.@ \n ^    _$>\\:^\n";

const QUINE: &str = "01->1# +# :# 0# g# ,# :# 5# 8# *# 4# +# -# _@\n";

fn build_interpreter() -> Interpreter<SeededHeadings> {
    let input = Vec::new();
    let output = Vec::new();
    let gen = SeededHeadings::new(123);

    Interpreter::new(input, output, gen)
}

#[test]
fn test_hello_world() {
    let mut interpreter = build_interpreter();
    let program = HELLO_WORLD;
    interpreter.load_program(program).unwrap();

    interpreter.run().unwrap();

    let x = String::from_utf8_lossy(interpreter.get_output());
    assert_eq!(x, "Hello World!");
}

#[test]
fn test_factorial() {
    let mut interpreter = build_interpreter();
    interpreter.feed_input("5\n".as_bytes());
    let program = FACTORIAL;
    interpreter.load_program(program).unwrap();

    interpreter.run().unwrap();

    let x = String::from_utf8_lossy(interpreter.get_output());
    assert_eq!(x, "120");
}

#[test]
fn test_quine() {
    let mut interpreter = build_interpreter();
    let program = QUINE;
    interpreter.load_program(program).unwrap();

    interpreter.run().unwrap();

    let x = String::from_utf8_lossy(interpreter.get_output());
    assert_eq!(x, program.trim());
}

#[test]
fn test_push_digit_to_stack() {
    let mut interpreter = build_interpreter();
    interpreter.load_program("1").unwrap();

    interpreter.step().unwrap();

    assert_eq!(interpreter.pop(), 1);
}

#[test]
fn test_add_instruction() {
    let mut interpreter = build_interpreter();
    interpreter.load_program("12+@").unwrap();

    interpreter.run().unwrap();

    assert_eq!(interpreter.pop(), 3);
}

#[test]
fn test_subtract_instruction() {
    let mut interpreter = build_interpreter();
    interpreter.load_program("12-@").unwrap();

    interpreter.run().unwrap();

    assert_eq!(interpreter.pop(), -1);
}

#[test]
fn test_multiply_instruction() {
    let mut interpreter = build_interpreter();
    interpreter.load_program("34*@").unwrap();

    interpreter.run().unwrap();

    assert_eq!(interpreter.pop(), 12);
}

#[test]
fn test_divide_instruction_with_non_zero_denominator() {
    let mut interpreter = build_interpreter();
    interpreter.load_program("72/@").unwrap();

    interpreter.run().unwrap();

    assert_eq!(interpreter.pop(), 3);
}

#[test]
fn test_divide_instruction_with_zero_denominator() {
    let mut interpreter = build_interpreter();
    interpreter.load_program("70/@").unwrap();

    interpreter.run().unwrap();

    assert_eq!(interpreter.pop(), 0);
}

#[test]
fn test_remainder_instruction() {
    let mut interpreter = build_interpreter();
    interpreter.load_program("052%@").unwrap();

    interpreter.run().unwrap();

    assert_eq!(interpreter.pop(), 1);
}

#[test]
fn test_logical_not_when_top_of_the_stack_is_zero() {
    let mut interpreter = build_interpreter();
    interpreter.load_program("0!@").unwrap();

    interpreter.run().unwrap();

    assert_eq!(interpreter.pop(), 1);
}

#[test]
fn test_logical_not_when_top_of_the_stack_is_non_zero() {
    let mut interpreter = build_interpreter();
    interpreter.load_program("5!%@").unwrap();

    interpreter.run().unwrap();

    assert_eq!(interpreter.pop(), 0);
}

#[test]
fn test_greater_than_when_top_of_the_stack_is_greater_than_next() {
    let mut interpreter = build_interpreter();
    interpreter.load_program("25`@").unwrap();

    interpreter.run().unwrap();

    assert_eq!(interpreter.pop(), 0);
}

#[test]
fn test_greater_than_when_top_of_the_stack_is_lesser_than_next() {
    let mut interpreter = build_interpreter();
    interpreter.load_program("52`@").unwrap();

    interpreter.run().unwrap();

    assert_eq!(interpreter.pop(), 1);
}

#[test]
fn test_greater_than_when_top_of_the_stack_is_lesser_equal_to_next() {
    let mut interpreter = build_interpreter();
    interpreter.load_program("52`@").unwrap();

    interpreter.run().unwrap();

    assert_eq!(interpreter.pop(), 1);
}

#[test]
fn test_start_moving_right() {
    let mut interpreter = build_interpreter();
    interpreter.load_program("v  \n>1@").unwrap();

    interpreter.run().unwrap();

    assert_eq!(interpreter.pop(), 1);
}

#[test]
fn test_start_moving_left() {
    let mut interpreter = build_interpreter();
    interpreter.load_program("<@1").unwrap();

    interpreter.run().unwrap();

    assert_eq!(interpreter.pop(), 1);
}

#[test]
fn test_start_moving_up() {
    let mut interpreter = build_interpreter();
    interpreter.load_program("^\n@\n1").unwrap();

    interpreter.run().unwrap();

    assert_eq!(interpreter.pop(), 1);
}

#[test]
fn test_start_moving_down() {
    let mut interpreter = build_interpreter();
    interpreter.load_program("v\n1\n@").unwrap();

    interpreter.run().unwrap();

    assert_eq!(interpreter.pop(), 1);
}

#[test]
fn test_start_moving_randomly() {
    let input = Vec::new();
    let output = Vec::new();
    let gen = SeededHeadings::new(123);
    let mut interpreter = Interpreter::new(input, output, gen);
    interpreter.load_program("?\n@\n1").unwrap();

    interpreter.run().unwrap();

    assert_eq!(interpreter.pop(), 1);
}

#[test]
fn test_horizontal_if_when_0() {
    let mut interpreter = build_interpreter();
    interpreter.load_program("v\n0\n_1@").unwrap();

    interpreter.run().unwrap();

    assert_eq!(interpreter.pop(), 1);
}

#[test]
fn test_horizontal_if_when_other_than_0() {
    let mut interpreter = build_interpreter();
    interpreter.load_program("v\n1\n_@1").unwrap();

    interpreter.run().unwrap();

    assert_eq!(interpreter.pop(), 1);
}

#[test]
fn test_vertical_if_when_0() {
    let mut interpreter = build_interpreter();
    interpreter.load_program("0|\n 1\n @").unwrap();

    interpreter.run().unwrap();

    assert_eq!(interpreter.pop(), 1);
}

#[test]
fn test_vertical_if_when_other_than_0() {
    let mut interpreter = build_interpreter();
    interpreter.load_program("1|\n @\n 1").unwrap();

    interpreter.run().unwrap();

    assert_eq!(interpreter.pop(), 1);
}

#[test]
fn test_string_mode() {
    let mut interpreter = build_interpreter();
    interpreter.load_program("\"HA\"@").unwrap();

    interpreter.run().unwrap();

    assert_eq!(interpreter.pop(), 65);
    assert_eq!(interpreter.pop(), 72);
}

#[test]
fn test_duplicate_top_of_the_stack() {
    let mut interpreter = build_interpreter();
    interpreter.load_program("1:@").unwrap();

    interpreter.run().unwrap();

    assert_eq!(interpreter.pop(), 1);
    assert_eq!(interpreter.pop(), 1);
}

#[test]
fn test_swap_top_stack_values() {
    let mut interpreter = build_interpreter();
    interpreter.load_program("12\\@").unwrap();

    interpreter.run().unwrap();

    assert_eq!(interpreter.pop(), 1);
    assert_eq!(interpreter.pop(), 2);
}

#[test]
fn test_pop_and_discard() {
    let mut interpreter = build_interpreter();
    interpreter.load_program("1$@").unwrap();

    interpreter.run().unwrap();

    assert!(interpreter.get_stack().is_empty());
}

#[test]
fn test_pop_and_output_int() {
    let mut interpreter = build_interpreter();
    interpreter.load_program("79*2+.@").unwrap();

    interpreter.run().unwrap();

    let output = String::from_utf8_lossy(interpreter.get_output());
    assert_eq!(output, "65");
}

#[test]
fn test_pop_and_output_char_with_valid_ascii_code() {
    let mut interpreter = build_interpreter();
    interpreter.load_program("79*2+,@").unwrap();

    interpreter.run().unwrap();

    let output = String::from_utf8_lossy(interpreter.get_output());
    assert_eq!(output, "A");
}

#[test]
fn test_pop_and_output_char_with_invalid_ascii_code() {
    let mut interpreter = build_interpreter();
    interpreter.load_program("12-,@").unwrap();

    let result = interpreter.run();

    match result {
        Err(InterpreterError::InvalidAscii(-1)) => (),
        _ => assert!(false),
    }
}

#[test]
fn test_bridge() {
    let mut interpreter = build_interpreter();
    interpreter.load_program("1@1@").unwrap();

    interpreter.run().unwrap();

    assert_eq!(interpreter.pop(), 1);
}

#[test]
fn test_put_with_valid_ascii_code() {
    let mut interpreter = build_interpreter();
    interpreter.load_program("79*2+21p@\n\n").unwrap();

    interpreter.run().unwrap();

    assert_eq!(interpreter.get_program()[1][2], 'A');
}

#[test]
fn test_put_with_invalid_ascii_code() {
    let mut interpreter = build_interpreter();
    interpreter.load_program("12-21p@\n\n").unwrap();

    let result = interpreter.run();

    match result {
        Err(InterpreterError::InvalidAscii(-1)) => (),
        _ => assert!(false),
    }
}

#[test]
fn test_put_with_invalid_coordinates() {
    let mut interpreter = build_interpreter();
    interpreter.load_program("79*2+89p@\n\n").unwrap();

    let result = interpreter.run();

    match result {
        Err(InterpreterError::InvalidCoordinates { x: 8, y: 9 }) => (),
        _ => assert!(false),
    }
}

#[test]
fn test_get() {
    let mut interpreter = build_interpreter();
    interpreter.load_program("21g@\n  A").unwrap();

    interpreter.run().unwrap();

    assert_eq!(interpreter.pop(), 65);
}

#[test]
fn test_get_with_invalid_coordinates() {
    let mut interpreter = build_interpreter();
    interpreter.load_program("89g@\n  A").unwrap();

    let result = interpreter.run();

    match result {
        Err(InterpreterError::InvalidCoordinates { x: 8, y: 9 }) => (),
        _ => assert!(false),
    }
}

#[test]
fn test_get_int_and_push() {
    let mut interpreter = build_interpreter();
    interpreter.feed_input("65\n".as_bytes());
    interpreter.load_program("&@").unwrap();

    interpreter.run().unwrap();

    assert_eq!(interpreter.pop(), 65);
}

#[test]
fn test_get_int_and_push_with_invalid_integer() {
    let mut interpreter = build_interpreter();
    interpreter.feed_input("x\n".as_bytes());
    interpreter.load_program("&@").unwrap();

    let result = interpreter.run();

    match result {
        Err(InterpreterError::ParseError(_)) => (),
        _ => assert!(false),
    }
}

#[test]
fn test_get_char_and_push() {
    let mut interpreter = build_interpreter();
    interpreter.feed_input("A\n".as_bytes());
    interpreter.load_program("~@").unwrap();

    interpreter.run().unwrap();

    assert_eq!(interpreter.pop(), 65);
}

#[test]
fn test_unknown_instruction() {
    let mut interpreter = build_interpreter();
    interpreter.load_program("x").unwrap();

    let result = interpreter.run();

    match result {
        Err(InterpreterError::UnknownInstruction('x')) => (),
        _ => assert!(false),
    }
}
