use crate::error::IoFailure;
use crate::text::chars_of;
use vstd::prelude::*;
use vstd::slice::slice_subrange;
use vstd::string::StringSliceAdditionalSpecFns;
use vstd::utf8::{decode_utf8, valid_utf8};

verus! {

/// How many of `bytes` make up their first line: all up to the first line
/// feed and that line feed, or all of them where they hold none.
pub open spec fn line_span(bytes: Seq<u8>) -> int {
    match bytes.index_of_first(10u8) {
        Some(index) => index + 1,
        None => bytes.len() as int,
    }
}

/// The text that the bytes of a line stand for, where they are valid UTF-8.
pub open spec fn line_text(bytes: Seq<u8>) -> Result<Seq<char>, IoFailure> {
    if valid_utf8(bytes) {
        Ok(decode_utf8(bytes))
    } else {
        Err(IoFailure::InvalidData)
    }
}

/// `line_span` is the one length at whose end the first line feed stands, or
/// the bytes end.
pub proof fn lemma_line_span(bytes: Seq<u8>, span: int)
    requires
        0 <= span <= bytes.len(),
        forall|k: int| 0 <= k < span - 1 ==> bytes[k] != 10u8,
        span > 0 && bytes[span - 1] == 10u8 || (span == bytes.len() && forall|k: int|
            0 <= k < span ==> bytes[k] != 10u8),
    ensures
        line_span(bytes) == span,
{
    bytes.index_of_first_ensures(10u8);
    match bytes.index_of_first(10u8) {
        Some(index) => {
            if index < span - 1 {
                assert(bytes[index] != 10u8);
            } else if index > span - 1 {
                if span > 0 && bytes[span - 1] == 10u8 {
                } else {
                    assert(bytes[index] != 10u8);
                }
            }
        },
        None => {
            if span > 0 && bytes[span - 1] == 10u8 {
                assert(bytes.contains(bytes[span - 1]));
            }
        },
    }
}

/// `std::str::from_utf8`: the string slice that `bytes` are, where they are
/// valid UTF-8, and nothing where they are not. The slice is made of exactly
/// these bytes.
#[verifier::external_body]
fn utf8_text(bytes: &[u8]) -> (text: Option<&str>)
    ensures
        text is Some <==> valid_utf8(bytes@),
        text matches Some(t) ==> t.spec_bytes() == bytes@,
{
    std::str::from_utf8(bytes).ok()
}

/// The bytes that a program can still read, in the order in which it reads
/// them. The host fills it; the interpreter takes from its front.
///
/// The view is the sequence of the bytes not read yet.
#[derive(Debug)]
pub struct Input {
    bytes: Vec<u8>,
    position: usize,
}

impl View for Input {
    type V = Seq<u8>;

    closed spec fn view(&self) -> Seq<u8> {
        self.bytes@.skip(self.position as int)
    }
}

impl Input {
    #[verifier::type_invariant]
    spec fn well_formed(&self) -> bool {
        self.position <= self.bytes@.len()
    }

    /// An input that holds `bytes`, none of them read.
    pub fn new(bytes: Vec<u8>) -> (input: Input)
        ensures
            input@ == bytes@,
    {
        let input = Input { bytes, position: 0 };
        assert(input@ =~= bytes@);
        input
    }

    /// The number of bytes not read yet.
    pub fn remaining(&self) -> (count: usize)
        ensures
            count == self@.len(),
    {
        proof {
            use_type_invariant(self);
        }
        self.bytes.len() - self.position
    }

    /// Whether a whole line is ready: a line feed is among the unread bytes.
    pub fn has_line(&self) -> (ready: bool)
        ensures
            ready == self@.contains(10u8),
    {
        proof {
            use_type_invariant(self);
        }
        let mut index: usize = self.position;
        while index < self.bytes.len()
            invariant
                self.position <= index,
                self.position <= self.bytes@.len(),
                forall|k: int| self.position <= k < index ==> self.bytes@[k] != 10u8,
            decreases self.bytes.len() - index,
        {
            if self.bytes[index] == 10 {
                assert(self@[index - self.position] == 10u8);
                return true;
            }
            index += 1;
        }
        false
    }

    /// Puts `more` behind the bytes not read yet.
    pub fn feed(&mut self, more: &[u8])
        ensures
            final(self)@ == old(self)@ + more@,
    {
        proof {
            use_type_invariant(&*self);
        }
        let position = self.position;
        let mut bytes: Vec<u8> = Vec::new();
        self.position = 0;
        std::mem::swap(&mut self.bytes, &mut bytes);
        let ghost before = bytes@;
        let mut index: usize = 0;
        while index < more.len()
            invariant
                index <= more.len(),
                bytes@ == before + more@.take(index as int),
            decreases more.len() - index,
        {
            bytes.push(more[index]);
            assert(more@.take(index + 1) == more@.take(index as int).push(more@[index as int]));
            index += 1;
        }
        assert(more@.take(index as int) == more@);
        std::mem::swap(&mut self.bytes, &mut bytes);
        self.position = position;
        assert(self@ =~= old(self)@ + more@);
    }

    /// Takes the next byte. Fails, and takes nothing, where none is left.
    pub fn read_byte(&mut self) -> (read: Result<u8, IoFailure>)
        ensures
            match read {
                Ok(byte) => old(self)@.len() > 0 && byte == old(self)@[0] && final(self)@ == old(
                    self,
                )@.skip(1),
                Err(failure) => old(self)@.len() == 0 && failure == IoFailure::UnexpectedEof
                    && final(self)@ == old(self)@,
            },
    {
        proof {
            use_type_invariant(&*self);
        }
        if self.position < self.bytes.len() {
            let byte = self.bytes[self.position];
            self.position += 1;
            assert(self@ =~= old(self)@.skip(1));
            Ok(byte)
        } else {
            Err(IoFailure::UnexpectedEof)
        }
    }

    /// Takes the next line, its line feed included, and hands out its text.
    /// At the end of the input the line is empty. The bytes are taken, too,
    /// where they are not valid UTF-8 and the read fails.
    pub fn read_line(&mut self) -> (read: Result<Vec<char>, IoFailure>)
        ensures
            final(self)@ == old(self)@.skip(line_span(old(self)@)),
            match read {
                Ok(text) => line_text(old(self)@.take(line_span(old(self)@))) == Ok::<
                    Seq<char>,
                    IoFailure,
                >(text@),
                Err(failure) => line_text(old(self)@.take(line_span(old(self)@))) == Err::<
                    Seq<char>,
                    IoFailure,
                >(failure),
            },
    {
        proof {
            use_type_invariant(&*self);
        }
        let begin: usize = self.position;
        let mut end: usize = begin;
        let mut found = false;
        while end < self.bytes.len() && !found
            invariant
                begin <= end <= self.bytes@.len(),
                begin == self.position,
                forall|k: int| begin <= k < end - 1 ==> self.bytes@[k] != 10u8,
                found ==> end > begin && self.bytes@[end - 1] == 10u8,
                !found ==> forall|k: int| begin <= k < end ==> self.bytes@[k] != 10u8,
            decreases self.bytes.len() - end,
        {
            found = self.bytes[end] == 10;
            end += 1;
        }
        proof {
            lemma_line_span(self@, end - begin);
        }
        let line = slice_subrange(self.bytes.as_slice(), begin, end);
        assert(line@ == old(self)@.take(end - begin));
        let read = match utf8_text(line) {
            Some(text) => {
                proof {
                    vstd::utf8::encode_utf8_decode_utf8(text@);
                }
                Ok(chars_of(text))
            },
            None => Err(IoFailure::InvalidData),
        };
        self.position = end;
        assert(self@ =~= old(self)@.skip(end - begin));
        read
    }
}

} // verus!
