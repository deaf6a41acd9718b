//! Text as a serial terminal wants it, and guest output gathered into lines.

use vstd::prelude::*;

verus! {

/// Bytes with a carriage return put before every line feed.
pub open spec fn crlf(bytes: Seq<u8>) -> Seq<u8>
    decreases bytes.len(),
{
    if bytes.len() == 0 {
        Seq::empty()
    } else if bytes.last() == 10 {
        crlf(bytes.drop_last()).push(13).push(10)
    } else {
        crlf(bytes.drop_last()).push(bytes.last())
    }
}

/// The bytes to transmit for a string.
pub fn serial_bytes(s: &str) -> (out: Vec<u8>)
    ensures
        out@ == crlf(vstd::utf8::encode_utf8(s@)),
{
    let bytes = s.as_bytes();
    let mut out: Vec<u8> = Vec::new();
    let mut i: usize = 0;
    while i < bytes.len()
        invariant
            i <= bytes@.len(),
            out@ == crlf(bytes@.take(i as int)),
        decreases bytes@.len() - i,
    {
        let byte: u8 = bytes[i];
        assert(bytes@.take(i + 1).drop_last() =~= bytes@.take(i as int));
        if byte == 10 {
            out.push(13);
        }
        out.push(byte);
        i += 1;
    }
    assert(bytes@.take(i as int) =~= bytes@);
    out
}

/// No line feed goes out without a carriage return right before it.
pub proof fn every_newline_is_preceded_by_return(bytes: Seq<u8>, i: int)
    requires
        0 <= i < crlf(bytes).len(),
        crlf(bytes)[i] == 10,
    ensures
        i > 0,
        crlf(bytes)[i - 1] == 13,
    decreases bytes.len(),
{
    if bytes.len() > 0 {
        let rest = crlf(bytes.drop_last());
        if i < rest.len() {
            every_newline_is_preceded_by_return(bytes.drop_last(), i);
        }
    }
}

/// Guest serial output waiting for its line to end.
pub struct GuestLine {
    pub buf: String,
}

/// The line printed for pending guest text; nothing for none.
pub open spec fn guest_line(pending: Seq<char>) -> Option<Seq<char>> {
    if pending.len() == 0 {
        None
    } else {
        Some("GUEST | "@ + pending)
    }
}

impl View for GuestLine {
    type V = Seq<char>;

    open spec fn view(&self) -> Seq<char> {
        self.buf@
    }
}

/// Pending guest text after a byte: a line feed ends the line, a carriage
/// return is dropped, anything else is text.
pub open spec fn pending_after(pending: Seq<char>, byte: u8) -> Seq<char> {
    if byte == 10 {
        Seq::empty()
    } else if byte == 13 {
        pending
    } else {
        pending.push(byte as char)
    }
}

/// Pending guest text after a run of bytes.
pub open spec fn pending_after_all(pending: Seq<char>, bytes: Seq<u8>) -> Seq<char>
    decreases bytes.len(),
{
    if bytes.len() == 0 {
        pending
    } else {
        pending_after(pending_after_all(pending, bytes.drop_last()), bytes.last())
    }
}

impl GuestLine {
    pub fn new() -> (line: Self)
        ensures
            line@ == Seq::<char>::empty(),
    {
        Self { buf: String::new() }
    }

    /// Take one byte of guest output. Returns the line to print, if this
    /// byte ended one with anything on it.
    pub fn push(&mut self, byte: u8) -> (printed: Option<String>)
        ensures
            final(self)@ == pending_after(old(self)@, byte),
            byte != 10 ==> printed is None,
            byte == 10 ==> (printed is Some) == (guest_line(old(self)@) is Some),
            printed matches Some(line) ==> guest_line(old(self)@) == Some(line@),
    {
        match byte {
            10 => self.flush(),
            13 => None,
            _ => {
                self.buf.push(byte as char);
                None
            },
        }
    }

    /// End the line. Returns what to print, if anything was pending.
    pub fn flush(&mut self) -> (printed: Option<String>)
        ensures
            final(self)@ == Seq::<char>::empty(),
            (printed is Some) == (guest_line(old(self)@) is Some),
            printed matches Some(line) ==> guest_line(old(self)@) == Some(line@),
    {
        if self.buf.as_str().is_empty() {
            assert(self@ =~= Seq::empty());
            return None;
        }
        let mut line = "GUEST | ".to_owned();
        line.append(self.buf.as_str());
        self.buf = String::new();
        Some(line)
    }
}

/// A run of guest text without line ends is gathered whole, so the line
/// feed that follows prints exactly it.
pub proof fn guest_text_is_gathered_whole(bytes: Seq<u8>)
    requires
        forall|i: int| 0 <= i < bytes.len() ==> bytes[i] != 10 && bytes[i] != 13,
    ensures
        pending_after_all(Seq::empty(), bytes) == Seq::new(bytes.len(), |i: int| bytes[i] as char),
    decreases bytes.len(),
{
    if bytes.len() > 0 {
        guest_text_is_gathered_whole(bytes.drop_last());
    }
    assert(pending_after_all(Seq::empty(), bytes) =~= Seq::new(
        bytes.len(),
        |i: int| bytes[i] as char,
    ));
}

/// Nothing but carriage returns is put in: with them taken out again, text
/// that had none is as it was.
pub proof fn only_returns_are_put_in(bytes: Seq<u8>)
    requires
        forall|i: int| 0 <= i < bytes.len() ==> bytes[i] != 13,
    ensures
        crlf(bytes).filter(|byte: u8| byte != 13) == bytes,
    decreases bytes.len(),
{
    let keep = |byte: u8| byte != 13;
    reveal(Seq::filter);
    if bytes.len() > 0 {
        let rest = bytes.drop_last();
        only_returns_are_put_in(rest);
        let last = bytes.last();
        if last == 10 {
            let returned = crlf(rest).push(13);
            assert(returned.push(10).drop_last() =~= returned);
            assert(returned.drop_last() =~= crlf(rest));
            assert(returned.filter(keep) == crlf(rest).filter(keep));
        } else {
            assert(crlf(rest).push(last).drop_last() =~= crlf(rest));
        }
        assert(rest.push(last) =~= bytes);
    }
}

} // verus!
