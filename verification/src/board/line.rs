//! A fixed-capacity line of text, for boards without an allocator.

use crate::board::text;
use vstd::prelude::*;

verus! {

/// Bytes a [`Line`] holds.
pub const CAPACITY: usize = 128;

/// What a line keeps of a byte sequence: its first [`CAPACITY`] bytes.
pub open spec fn clipped(bytes: Seq<u8>) -> Seq<u8> {
    if bytes.len() <= CAPACITY {
        bytes
    } else {
        bytes.take(CAPACITY as int)
    }
}

/// A line of at most [`CAPACITY`] bytes; what does not fit is cut off.
pub struct Line {
    buf: [u8; CAPACITY],
    len: usize,
}

impl Line {
    #[verifier::type_invariant]
    spec fn fits(self) -> bool {
        self.len <= CAPACITY
    }
}

impl View for Line {
    type V = Seq<u8>;

    closed spec fn view(&self) -> Seq<u8> {
        self.buf@.take(self.len as int)
    }
}

impl Line {
    pub fn new() -> (line: Self)
        ensures
            line@ == Seq::<u8>::empty(),
    {
        let line = Self { buf: [0;CAPACITY], len: 0 };
        assert(line@ =~= Seq::empty());
        line
    }

    /// Append a string, as much of it as fits.
    pub fn write_str(&mut self, s: &str)
        ensures
            final(self)@ == clipped(old(self)@ + vstd::utf8::encode_utf8(s@)),
            final(self)@.len() <= CAPACITY,
    {
        proof {
            use_type_invariant(&*self);
        }
        let bytes = s.as_bytes();
        let ghost start = self@;
        let mut i: usize = 0;
        while i < bytes.len() && self.len < CAPACITY
            invariant
                i <= bytes@.len(),
                self.len <= CAPACITY,
                self@ == start + bytes@.take(i as int),
            decreases bytes@.len() - i,
        {
            let ghost written = self@;
            self.buf[self.len] = bytes[i];
            self.len = self.len + 1;
            assert(self@ =~= written.push(bytes@[i as int]));
            i += 1;
            assert(bytes@.take(i as int) =~= bytes@.take(i - 1).push(bytes@[i - 1]));
        }
        let ghost whole = start + bytes@;
        assert(self@.len() == self.len);
        assert(self@ =~= whole.take(self.len as int));
        assert(self@ =~= clipped(whole));
    }

    /// The line as text; empty if a cut fell inside a character.
    pub fn as_str(&self) -> (s: &str)
        ensures
            vstd::utf8::valid_utf8(self@) ==> vstd::utf8::encode_utf8(s@) == self@,
            !vstd::utf8::valid_utf8(self@) ==> s@ == Seq::<char>::empty(),
    {
        proof {
            use_type_invariant(self);
        }
        let bytes = vstd::slice::slice_subrange(self.buf.as_slice(), 0, self.len);
        assert(bytes@ =~= self@);
        match text::checked_utf8(bytes) {
            Some(s) => s,
            None => {
                proof {
                    reveal_strlit("");
                }
                assert(""@ =~= Seq::empty());
                ""
            },
        }
    }
}

/// A line that was long enough for everything written to it reads back as
/// that text.
pub proof fn unclipped_text_reads_back(text: Seq<char>)
    requires
        vstd::utf8::encode_utf8(text).len() <= CAPACITY,
    ensures
        clipped(vstd::utf8::encode_utf8(text)) == vstd::utf8::encode_utf8(text),
        vstd::utf8::valid_utf8(clipped(vstd::utf8::encode_utf8(text))),
{
    vstd::utf8::encode_utf8_valid_utf8(text);
}

} // verus!
