use crate::error::ParseFailure;
use vstd::prelude::*;

verus! {

/// The decimal digits of `n` as ASCII codes, the most significant first and
/// without leading zeros; a single `0` for 0.
pub open spec fn digits_of(n: nat) -> Seq<u8>
    decreases n,
{
    if n < 10 {
        seq![(48 + n) as u8]
    } else {
        digits_of(n / 10).push((48 + n % 10) as u8)
    }
}

/// The decimal text of `n` as ASCII codes: a minus sign for a negative
/// number, then the digits of its magnitude.
pub open spec fn decimal_of(n: int) -> Seq<u8> {
    if n < 0 {
        seq![45u8] + digits_of((-n) as nat)
    } else {
        digits_of(n as nat)
    }
}

/// The digits of `n` that are still to be written once its last digits have
/// been taken off: none for 0.
spec fn leading_digits(n: nat) -> Seq<u8> {
    if n == 0 {
        Seq::empty()
    } else {
        digits_of(n)
    }
}

/// Taking the last digit off leaves the digits before it.
proof fn lemma_leading_digits(n: nat)
    requires
        n > 0,
    ensures
        leading_digits(n) == leading_digits(n / 10).push((48 + n % 10) as u8),
{
    if n < 10 {
        assert(n / 10 == 0);
        assert(n % 10 == n);
        assert(seq![(48 + n) as u8] == Seq::<u8>::empty().push((48 + n) as u8));
    }
}

/// The decimal text of `n`.
pub fn decimal_bytes(n: isize) -> (bytes: Vec<u8>)
    ensures
        bytes@ == decimal_of(n as int),
{
    let magnitude: u128 = if n < 0 {
        (-(n as i128)) as u128
    } else {
        n as u128
    };
    let mut rest: u128 = magnitude;
    let mut reversed: Vec<u8> = Vec::new();
    reversed.push(48 + (rest % 10) as u8);
    rest = rest / 10;
    proof {
        if magnitude > 0 {
            lemma_leading_digits(magnitude as nat);
        }
        assert(digits_of(magnitude as nat) == leading_digits(rest as nat) + reversed@.reverse());
    }
    while rest > 0
        invariant
            digits_of(magnitude as nat) == leading_digits(rest as nat) + reversed@.reverse(),
        decreases rest,
    {
        let ghost written = reversed@;
        let digit: u8 = 48 + (rest % 10) as u8;
        reversed.push(digit);
        proof {
            lemma_leading_digits(rest as nat);
            assert(reversed@.reverse() == seq![digit] + written.reverse());
            assert(leading_digits((rest / 10) as nat).push(digit) + written.reverse()
                == leading_digits((rest / 10) as nat) + (seq![digit] + written.reverse()));
        }
        rest = rest / 10;
    }
    let mut bytes: Vec<u8> = Vec::new();
    if n < 0 {
        bytes.push(45);
    }
    let ghost sign = bytes@;
    let mut left: usize = reversed.len();
    while left > 0
        invariant
            left <= reversed@.len(),
            bytes@ == sign + reversed@.reverse().take(reversed@.len() - left),
        decreases left,
    {
        left -= 1;
        bytes.push(reversed[left]);
        proof {
            let whole = reversed@.reverse();
            let count = reversed@.len() - left;
            assert(whole.take(count) == whole.take(count - 1).push(reversed@[left as int]));
        }
    }
    proof {
        let whole = reversed@.reverse();
        assert(whole.take(whole.len() as int) == whole);
        assert(leading_digits(0) + whole == whole);
    }
    bytes
}

/// Whether `c` is one of the ten decimal digits.
pub open spec fn is_digit(c: char) -> bool {
    '0' <= c <= '9'
}

/// The number that the decimal digit `c` stands for.
pub open spec fn digit_value(c: char) -> int {
    c as int - 48
}

/// The number that `digits` spell when they are read from the left onto a
/// sign, or the first thing that stops the reading: a character that is no
/// digit, or a digit that takes the number out of the range of `isize`.
pub open spec fn read_digits(digits: Seq<char>, negative: bool) -> Result<int, ParseFailure>
    decreases digits.len(),
{
    if digits.len() == 0 {
        Ok(0)
    } else {
        match read_digits(digits.drop_last(), negative) {
            Err(failure) => Err(failure),
            Ok(before) => {
                let value = if negative {
                    before * 10 - digit_value(digits.last())
                } else {
                    before * 10 + digit_value(digits.last())
                };
                if !is_digit(digits.last()) {
                    Err(ParseFailure::InvalidDigit)
                } else if value > isize::MAX {
                    Err(ParseFailure::PosOverflow)
                } else if value < isize::MIN {
                    Err(ParseFailure::NegOverflow)
                } else {
                    Ok(value)
                }
            },
        }
    }
}

/// The signed integer that `text` spells in decimal: an optional `+` or `-`
/// and then at least one digit, nothing else, with a value in the range of
/// `isize`. Otherwise the reason why it spells none.
pub open spec fn parse_integer(text: Seq<char>) -> Result<int, ParseFailure> {
    if text.len() == 0 {
        Err(ParseFailure::Empty)
    } else if text.len() == 1 && (text[0] == '+' || text[0] == '-') {
        Err(ParseFailure::InvalidDigit)
    } else if text[0] == '+' {
        read_digits(text.skip(1), false)
    } else if text[0] == '-' {
        read_digits(text.skip(1), true)
    } else {
        read_digits(text, false)
    }
}

/// Reads the signed decimal integer that `text` spells.
pub fn parse_isize(text: &[char]) -> (parsed: Result<isize, ParseFailure>)
    ensures
        match parsed {
            Ok(value) => parse_integer(text@) == Ok::<int, ParseFailure>(value as int),
            Err(failure) => parse_integer(text@) == Err::<int, ParseFailure>(failure),
        },
{
    if text.len() == 0 {
        return Err(ParseFailure::Empty);
    }
    let first = text[0];
    if text.len() == 1 && (first == '+' || first == '-') {
        return Err(ParseFailure::InvalidDigit);
    }
    let negative = first == '-';
    let begin: usize = if first == '+' || first == '-' {
        1
    } else {
        0
    };
    let ghost digits = text@.skip(begin as int);
    let mut value: i128 = 0;
    let mut index: usize = begin;
    assert(digits.take(0) == Seq::<char>::empty());
    assert(text@.skip(0) == text@);
    while index < text.len()
        invariant
            begin <= index <= text.len(),
            digits == text@.skip(begin as int),
            parse_integer(text@) == read_digits(digits, negative),
            read_digits(digits.take(index - begin), negative) == Ok::<int, ParseFailure>(
                value as int,
            ),
            isize::MIN <= value <= isize::MAX,
        decreases text.len() - index,
    {
        let c = text[index];
        proof {
            let upto = digits.take(index - begin + 1);
            assert(upto.drop_last() == digits.take(index - begin));
            assert(upto.last() == c);
            if index + 1 < text.len() {
                lemma_read_digits_fails_on(digits, index - begin + 1);
            } else {
                assert(upto == digits);
            }
        }
        if !(c >= '0' && c <= '9') {
            return Err(ParseFailure::InvalidDigit);
        }
        let digit: i128 = (c as u32 - 48) as i128;
        let next: i128 = if negative {
            value * 10 - digit
        } else {
            value * 10 + digit
        };
        if next > isize::MAX as i128 {
            return Err(ParseFailure::PosOverflow);
        }
        if next < isize::MIN as i128 {
            return Err(ParseFailure::NegOverflow);
        }
        value = next;
        index += 1;
    }
    assert(digits.take(index - begin) == digits);
    Ok(value as isize)
}

/// A failure in reading a prefix of `digits` is the failure in reading all
/// of them.
pub proof fn lemma_read_digits_fails_on(digits: Seq<char>, upto: int)
    requires
        0 <= upto <= digits.len(),
    ensures
        read_digits(digits.take(upto), false) is Err ==> read_digits(digits, false) == read_digits(
            digits.take(upto),
            false,
        ),
        read_digits(digits.take(upto), true) is Err ==> read_digits(digits, true) == read_digits(
            digits.take(upto),
            true,
        ),
    decreases digits.len(),
{
    if upto < digits.len() {
        assert(digits.drop_last().take(upto) == digits.take(upto));
        lemma_read_digits_fails_on(digits.drop_last(), upto);
    } else {
        assert(digits.take(upto) == digits);
    }
}

} // verus!
