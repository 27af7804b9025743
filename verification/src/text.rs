use vstd::prelude::*;

verus! {

/// The characters of `text`, one by one.
pub fn chars_of(text: &str) -> (chars: Vec<char>)
    ensures
        chars@ == text@,
{
    let mut chars: Vec<char> = Vec::new();
    for c in it: text.chars()
        invariant
            it.seq() == text@,
            chars@ == it.seq().take(it.index()),
    {
        chars.push(c);
    }
    chars
}

/// Whether `c` is white space: a tab, a line feed, a vertical tab, a form
/// feed, a carriage return, a space, a next-line mark, or one of the spaces
/// and separators beyond ASCII.
pub open spec fn is_white_space(c: char) -> bool {
    let code = c as u32;
    ||| 0x09 <= code <= 0x0D
    ||| code == 0x20
    ||| code == 0x85
    ||| code == 0xA0
    ||| code == 0x1680
    ||| 0x2000 <= code <= 0x200A
    ||| code == 0x2028
    ||| code == 0x2029
    ||| code == 0x202F
    ||| code == 0x205F
    ||| code == 0x3000
}

/// `text` from its first character that is no white space.
pub open spec fn trim_start(text: Seq<char>) -> Seq<char>
    decreases text.len(),
{
    if text.len() > 0 && is_white_space(text.first()) {
        trim_start(text.drop_first())
    } else {
        text
    }
}

/// `text` up to its last character that is no white space.
pub open spec fn trim_end(text: Seq<char>) -> Seq<char>
    decreases text.len(),
{
    if text.len() > 0 && is_white_space(text.last()) {
        trim_end(text.drop_last())
    } else {
        text
    }
}

/// `text` without the white space at its two ends.
pub open spec fn trimmed(text: Seq<char>) -> Seq<char> {
    trim_end(trim_start(text))
}

/// Whether `c` is white space.
pub fn white_space(c: char) -> (white: bool)
    ensures
        white == is_white_space(c),
{
    let code: u32 = c as u32;
    (0x09 <= code && code <= 0x0D) || code == 0x20 || code == 0x85 || code == 0xA0 || code
        == 0x1680 || (0x2000 <= code && code <= 0x200A) || code == 0x2028 || code == 0x2029 || code
        == 0x202F || code == 0x205F || code == 0x3000
}

/// `text` without the white space at its two ends.
pub fn trim(text: &[char]) -> (kept: Vec<char>)
    ensures
        kept@ == trimmed(text@),
{
    let mut begin: usize = 0;
    assert(text@.skip(0) == text@);
    while begin < text.len() && white_space(text[begin])
        invariant
            begin <= text.len(),
            trim_start(text@) == trim_start(text@.skip(begin as int)),
        decreases text.len() - begin,
    {
        assert(text@.skip(begin as int).drop_first() == text@.skip(begin + 1));
        begin += 1;
    }
    let mut end: usize = text.len();
    assert(text@.subrange(begin as int, end as int) == text@.skip(begin as int));
    while end > begin && white_space(text[end - 1])
        invariant
            begin <= end <= text.len(),
            trimmed(text@) == trim_end(text@.subrange(begin as int, end as int)),
        decreases end,
    {
        assert(text@.subrange(begin as int, end as int).drop_last() == text@.subrange(
            begin as int,
            end - 1,
        ));
        end -= 1;
    }
    let mut kept: Vec<char> = Vec::new();
    let mut index: usize = begin;
    while index < end
        invariant
            begin <= index <= end <= text.len(),
            kept@ == text@.subrange(begin as int, index as int),
        decreases end - index,
    {
        kept.push(text[index]);
        index += 1;
    }
    kept
}

} // verus!
