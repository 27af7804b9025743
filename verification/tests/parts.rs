use befunge93_rs::grid::{longest_line, pad_line, split_lines};
use befunge93_rs::machine::{divide_wrapping, instruction_of, remainder_wrapping};
use befunge93_rs::numeral::{decimal_bytes, parse_isize};
use befunge93_rs::text::{chars_of, trim, white_space};
use befunge93_rs::{Direction, Grid, Input, Instruction, IoFailure, ParseFailure, Stack};

fn chars(text: &str) -> Vec<char> {
    text.chars().collect()
}

#[test]
fn stack_pops_what_was_pushed_last() {
    let mut stack = Stack::new(0);
    assert!(stack.is_empty());
    stack.push(1);
    stack.push(2);
    stack.push(3);
    assert_eq!(stack.len(), 3);
    assert_eq!(stack.as_slice(), &[1, 2, 3]);
    assert_eq!(stack.pop(), 3);
    assert_eq!(stack.pop(), 2);
    assert_eq!(stack.as_slice(), &[1]);
    assert!(!stack.is_empty());
}

#[test]
fn stack_pop_of_nothing_yields_the_default_and_changes_nothing() {
    let mut stack: Stack<u8> = Stack::new(9);
    assert_eq!(stack.pop(), 9);
    assert_eq!(stack.pop(), 9);
    assert_eq!(stack.len(), 0);
    stack.push(4);
    assert_eq!(stack.pop(), 4);
    assert_eq!(stack.pop(), 9);
}

#[test]
fn stack_pop2_yields_the_top_first() {
    let mut stack = Stack::new(-1);
    stack.push(10);
    stack.push(20);
    stack.push(30);
    assert_eq!(stack.pop2(), (30, 20));
    assert_eq!(stack.pop2(), (10, -1));
    assert_eq!(stack.pop2(), (-1, -1));
    assert!(stack.is_empty());
}

#[test]
fn stack_clear_keeps_the_default() {
    let mut stack = Stack::new('z');
    stack.push('a');
    stack.push('b');
    stack.clear();
    assert!(stack.is_empty());
    assert_eq!(stack.pop(), 'z');
}

#[test]
fn chars_of_yields_every_character() {
    assert_eq!(chars_of(""), Vec::<char>::new());
    assert_eq!(chars_of("a\u{e9}\u{1f600}\n"), vec!['a', '\u{e9}', '\u{1f600}', '\n']);
}

#[test]
fn split_lines_cuts_at_line_feeds() {
    assert_eq!(split_lines(&chars("")), Vec::<Vec<char>>::new());
    assert_eq!(split_lines(&chars("\n")), vec![chars("")]);
    assert_eq!(split_lines(&chars("a")), vec![chars("a")]);
    assert_eq!(split_lines(&chars("a\n")), vec![chars("a")]);
    assert_eq!(split_lines(&chars("a\nb")), vec![chars("a"), chars("b")]);
    assert_eq!(
        split_lines(&chars("a\n\nb\n\n")),
        vec![chars("a"), chars(""), chars("b"), chars("")]
    );
}

#[test]
fn split_lines_drops_one_carriage_return_before_a_line_feed() {
    assert_eq!(split_lines(&chars("a\r\nb")), vec![chars("a"), chars("b")]);
    assert_eq!(split_lines(&chars("a\r\r\nb\r")), vec![chars("a\r"), chars("b\r")]);
    assert_eq!(split_lines(&chars("\r\n\r")), vec![chars(""), chars("\r")]);
    assert_eq!(split_lines(&chars("a\rb\n")), vec![chars("a\rb")]);
}

#[test]
fn longest_line_is_the_greatest_length() {
    assert_eq!(longest_line(&[]), 0);
    assert_eq!(longest_line(&[chars("")]), 0);
    assert_eq!(longest_line(&[chars("ab"), chars("abcd"), chars("a")]), 4);
    assert_eq!(longest_line(&[chars("abc"), chars("abc")]), 3);
}

#[test]
fn pad_line_fills_up_with_spaces() {
    assert_eq!(pad_line(&chars("ab"), 4), chars("ab  "));
    assert_eq!(pad_line(&chars("ab"), 2), chars("ab"));
    assert_eq!(pad_line(&chars(""), 3), chars("   "));
    assert_eq!(pad_line(&chars(""), 0), chars(""));
}

#[test]
fn grid_new_has_no_cell() {
    let grid = Grid::new();
    assert_eq!(grid.height(), 0);
    assert_eq!(grid.width(), 0);
    assert!(grid.is_empty());
    assert_eq!(grid.current(), None);
    assert_eq!(grid.get(0, 0), None);
    assert_eq!((grid.row(), grid.col()), (0, 0));
}

#[test]
fn grid_from_text_is_a_rectangle() {
    let grid = Grid::from_text("ab\nc\ndef\n");
    assert_eq!(grid.height(), 3);
    assert_eq!(grid.width(), 3);
    assert!(!grid.is_empty());
    assert_eq!(grid.rows(), &vec![chars("ab "), chars("c  "), chars("def")]);
    assert_eq!(grid.current(), Some('a'));
    assert_eq!((grid.row(), grid.col()), (0, 0));
    assert_eq!(grid.get(1, 0), Some('c'));
    assert_eq!(grid.get(1, 2), Some(' '));
    assert_eq!(grid.get(2, 2), Some('f'));
    assert_eq!(grid.get(3, 0), None);
    assert_eq!(grid.get(0, 3), None);
}

#[test]
fn grid_of_empty_lines_has_rows_and_no_cell() {
    let mut grid = Grid::from_text("\n\n\n");
    assert_eq!(grid.height(), 3);
    assert_eq!(grid.width(), 0);
    assert!(grid.is_empty());
    assert_eq!(grid.current(), None);
    grid.advance(Direction::Down);
    assert_eq!((grid.row(), grid.col()), (0, 0));
    assert!(!grid.put(0, 0, 'x'));
}

#[test]
fn grid_advance_wraps_at_every_edge() {
    let mut grid = Grid::from_text("abc\ndef");
    grid.advance(Direction::Left);
    assert_eq!((grid.row(), grid.col()), (0, 2));
    assert_eq!(grid.current(), Some('c'));
    grid.advance(Direction::Right);
    assert_eq!((grid.row(), grid.col()), (0, 0));
    grid.advance(Direction::Up);
    assert_eq!((grid.row(), grid.col()), (1, 0));
    assert_eq!(grid.current(), Some('d'));
    grid.advance(Direction::Down);
    assert_eq!((grid.row(), grid.col()), (0, 0));
}

#[test]
fn grid_advance_moves_one_cell_inside() {
    let mut grid = Grid::from_text("abc\ndef\nghi");
    grid.advance(Direction::Right);
    grid.advance(Direction::Down);
    assert_eq!(grid.current(), Some('e'));
    grid.advance(Direction::Left);
    assert_eq!(grid.current(), Some('d'));
    grid.advance(Direction::Right);
    grid.advance(Direction::Right);
    assert_eq!(grid.current(), Some('f'));
    grid.advance(Direction::Up);
    assert_eq!(grid.current(), Some('c'));
    assert_eq!((grid.row(), grid.col()), (0, 2));
}

#[test]
fn grid_put_changes_one_cell_and_keeps_the_cursor() {
    let mut grid = Grid::from_text("abc\ndef");
    grid.advance(Direction::Right);
    assert!(grid.put(1, 2, 'X'));
    assert_eq!(grid.rows(), &vec![chars("abc"), chars("deX")]);
    assert_eq!(grid.get(1, 2), Some('X'));
    assert_eq!((grid.row(), grid.col()), (0, 1));
    assert!(grid.put(0, 1, 'Y'));
    assert_eq!(grid.current(), Some('Y'));
}

#[test]
fn grid_put_outside_writes_nothing() {
    let mut grid = Grid::from_text("abc\ndef");
    assert!(!grid.put(2, 0, 'X'));
    assert!(!grid.put(0, 3, 'X'));
    assert!(!grid.put(usize::MAX, usize::MAX, 'X'));
    assert_eq!(grid.rows(), &vec![chars("abc"), chars("def")]);
}

#[test]
fn decimal_bytes_writes_sign_and_digits() {
    assert_eq!(decimal_bytes(0), b"0");
    assert_eq!(decimal_bytes(7), b"7");
    assert_eq!(decimal_bytes(10), b"10");
    assert_eq!(decimal_bytes(-1), b"-1");
    assert_eq!(decimal_bytes(120), b"120");
    assert_eq!(decimal_bytes(-9070), b"-9070");
    assert_eq!(decimal_bytes(isize::MAX), isize::MAX.to_string().into_bytes());
    assert_eq!(decimal_bytes(isize::MIN), isize::MIN.to_string().into_bytes());
}

#[test]
fn parse_isize_reads_signed_decimals() {
    assert_eq!(parse_isize(&chars("0")), Ok(0));
    assert_eq!(parse_isize(&chars("-0")), Ok(0));
    assert_eq!(parse_isize(&chars("+0")), Ok(0));
    assert_eq!(parse_isize(&chars("007")), Ok(7));
    assert_eq!(parse_isize(&chars("65")), Ok(65));
    assert_eq!(parse_isize(&chars("+65")), Ok(65));
    assert_eq!(parse_isize(&chars("-65")), Ok(-65));
    assert_eq!(parse_isize(&chars(&isize::MAX.to_string())), Ok(isize::MAX));
    assert_eq!(parse_isize(&chars(&isize::MIN.to_string())), Ok(isize::MIN));
}

#[test]
fn parse_isize_agrees_with_the_standard_library() {
    for text in [
        "", "+", "-", "1", "-1", "+1", "++1", "+-1", "1+", "1-", " 1", "1 ", "12a", "a12", "1_000",
        "0x10", "1e3", "1.5", "\u{661}", "\u{ff11}", "9223372036854775807", "9223372036854775808",
        "-9223372036854775808", "-9223372036854775809", "2147483647", "2147483648", "-2147483648",
        "-2147483649", "000000000000000000000000000000001", "99999999999999999999999999a",
        "-99999999999999999999999999a", "a99999999999999999999999999",
    ] {
        let expected = text.parse::<isize>().map_err(|error| match error.kind() {
            std::num::IntErrorKind::Empty => ParseFailure::Empty,
            std::num::IntErrorKind::InvalidDigit => ParseFailure::InvalidDigit,
            std::num::IntErrorKind::PosOverflow => ParseFailure::PosOverflow,
            std::num::IntErrorKind::NegOverflow => ParseFailure::NegOverflow,
            _ => unreachable!(),
        });
        assert_eq!(parse_isize(&chars(text)), expected, "{text:?}");
    }
}

#[test]
fn white_space_agrees_with_the_standard_library() {
    for code in 0..=0x10ffffu32 {
        if let Some(c) = char::from_u32(code) {
            assert_eq!(white_space(c), c.is_whitespace(), "{code:#x}");
        }
    }
}

#[test]
fn trim_drops_white_space_at_both_ends() {
    assert_eq!(trim(&chars("")), chars(""));
    assert_eq!(trim(&chars("   ")), chars(""));
    assert_eq!(trim(&chars("a")), chars("a"));
    assert_eq!(trim(&chars("  a b \t\r\n")), chars("a b"));
    assert_eq!(trim(&chars("\u{a0}\u{3000}12\u{2003}\u{85}")), chars("12"));
    assert_eq!(trim(&chars("\u{200b}1\u{200b}")), chars("\u{200b}1\u{200b}"));
}

#[test]
fn trim_agrees_with_the_standard_library() {
    for text in [
        "",
        " ",
        "a",
        " a",
        "a ",
        " a ",
        "\n\ta  b\u{b}\u{c}",
        "\u{1680}x\u{2028}\u{2029}",
        "\u{202f}\u{205f}y\u{feff}",
    ] {
        assert_eq!(trim(&chars(text)), chars(text.trim()), "{text:?}");
    }
}

#[test]
fn input_reads_bytes_from_the_front() {
    let mut input = Input::new(vec![1, 2]);
    assert_eq!(input.remaining(), 2);
    assert_eq!(input.read_byte(), Ok(1));
    assert_eq!(input.read_byte(), Ok(2));
    assert_eq!(input.remaining(), 0);
    assert_eq!(input.read_byte(), Err(IoFailure::UnexpectedEof));
    assert_eq!(input.remaining(), 0);
    input.feed(&[3]);
    assert_eq!(input.read_byte(), Ok(3));
}

#[test]
fn input_reads_lines_with_their_line_feed() {
    let mut input = Input::new(b"ab\n\ncd".to_vec());
    assert!(input.has_line());
    assert_eq!(input.read_line(), Ok(chars("ab\n")));
    assert_eq!(input.remaining(), 3);
    assert_eq!(input.read_line(), Ok(chars("\n")));
    assert!(!input.has_line());
    assert_eq!(input.read_line(), Ok(chars("cd")));
    assert_eq!(input.remaining(), 0);
    assert_eq!(input.read_line(), Ok(chars("")));
    input.feed(b"e");
    input.feed(b"f\ng");
    assert!(input.has_line());
    assert_eq!(input.read_line(), Ok(chars("ef\n")));
    assert_eq!(input.read_byte(), Ok(b'g'));
}

#[test]
fn input_decodes_lines_as_utf8() {
    let mut input = Input::new("h\u{e9}\u{20ac}\u{1f600}\n".as_bytes().to_vec());
    assert_eq!(input.read_line(), Ok(chars("h\u{e9}\u{20ac}\u{1f600}\n")));
}

#[test]
fn input_takes_a_line_that_is_no_text() {
    for bad in [
        &b"\xff\n"[..],
        b"\xc3\n",
        b"\xe2\x82\n",
        b"\xed\xa0\x80\n",
        b"\xc0\x80\n",
        b"\xf4\x90\x80\x80\n",
    ] {
        let mut input = Input::new(bad.to_vec());
        input.feed(b"ok\n");
        assert_eq!(input.read_line(), Err(IoFailure::InvalidData));
        assert_eq!(input.remaining(), 3);
        assert_eq!(input.read_line(), Ok(chars("ok\n")));
    }
}

#[test]
fn input_reads_a_line_after_a_byte_from_the_middle() {
    let mut input = Input::new("\u{e9}1\n".as_bytes().to_vec());
    assert_eq!(input.read_byte(), Ok(0xc3));
    assert_eq!(input.read_line(), Err(IoFailure::InvalidData));
    assert_eq!(input.remaining(), 0);
}

#[test]
fn instruction_of_knows_every_instruction() {
    for (c, instruction) in [
        ('0', Instruction::Digit(0)),
        ('5', Instruction::Digit(5)),
        ('9', Instruction::Digit(9)),
        ('+', Instruction::Add),
        ('-', Instruction::Subtract),
        ('*', Instruction::Multiply),
        ('/', Instruction::Divide),
        ('%', Instruction::Remainder),
        ('!', Instruction::Not),
        ('`', Instruction::Greater),
        ('>', Instruction::Turn(Direction::Right)),
        ('<', Instruction::Turn(Direction::Left)),
        ('^', Instruction::Turn(Direction::Up)),
        ('v', Instruction::Turn(Direction::Down)),
        ('?', Instruction::TurnRandomly),
        ('_', Instruction::HorizontalIf),
        ('|', Instruction::VerticalIf),
        ('"', Instruction::Quote),
        (':', Instruction::Duplicate),
        ('\\', Instruction::Swap),
        ('$', Instruction::Discard),
        ('.', Instruction::OutputInteger),
        (',', Instruction::OutputCharacter),
        ('#', Instruction::Bridge),
        ('p', Instruction::Put),
        ('g', Instruction::Get),
        ('&', Instruction::InputInteger),
        ('~', Instruction::InputCharacter),
        (' ', Instruction::Blank),
        ('@', Instruction::Halt),
    ] {
        assert_eq!(instruction_of(c), Some(instruction));
    }
}

#[test]
fn instruction_of_knows_nothing_else() {
    let known = "0123456789+-*/%!`><^v?_|\":\\$.,#pg&~ @";
    for code in 0..=0x2ffu32 {
        let c = char::from_u32(code).unwrap();
        assert_eq!(instruction_of(c).is_some(), known.contains(c), "{c:?}");
    }
    assert_eq!(instruction_of('\u{ff10}'), None);
    assert_eq!(instruction_of('\u{661}'), None);
}

#[test]
fn divide_wrapping_rounds_towards_zero() {
    assert_eq!(divide_wrapping(7, 2), 3);
    assert_eq!(divide_wrapping(-7, 2), -3);
    assert_eq!(divide_wrapping(7, -2), -3);
    assert_eq!(divide_wrapping(-7, -2), 3);
    assert_eq!(divide_wrapping(0, 5), 0);
    assert_eq!(divide_wrapping(5, 0), 0);
    assert_eq!(divide_wrapping(0, 0), 0);
    assert_eq!(divide_wrapping(isize::MIN, -1), isize::MIN);
    assert_eq!(divide_wrapping(isize::MIN, 1), isize::MIN);
    assert_eq!(divide_wrapping(isize::MAX, -1), -isize::MAX);
}

#[test]
fn remainder_wrapping_follows_the_dividend() {
    assert_eq!(remainder_wrapping(7, 2), 1);
    assert_eq!(remainder_wrapping(-7, 2), -1);
    assert_eq!(remainder_wrapping(7, -2), 1);
    assert_eq!(remainder_wrapping(-7, -2), -1);
    assert_eq!(remainder_wrapping(6, 3), 0);
    assert_eq!(remainder_wrapping(5, 0), 0);
    assert_eq!(remainder_wrapping(isize::MIN, -1), 0);
    assert_eq!(remainder_wrapping(isize::MIN, 3), isize::MIN % 3);
}
