use vstd::prelude::*;

use crate::error::HttpError;
use crate::text::{latin1, latin1_string};

verus! {

/// What a line of bytes reads as: nothing when it is empty, else its characters.
pub open spec fn line_of(b: Seq<u8>) -> Option<Seq<char>> {
    if b.len() == 0 {
        None
    } else {
        Some(latin1(b))
    }
}

pub open spec fn opt_view(o: Option<String>) -> Option<Seq<char>> {
    match o {
        Some(s) => Some(s@),
        None => None,
    }
}

/// First index at or after `i` that holds a carriage return, or the length.
pub open spec fn cr_from(b: Seq<u8>, i: int) -> int
    decreases b.len() - i,
{
    if i < 0 || i >= b.len() || b[i] == 13 {
        i
    } else {
        cr_from(b, i + 1)
    }
}

/// What one more byte does to a line being read.
pub enum LineStep {
    /// The line goes on.
    More,
    /// A CR LF ended the line; an empty line reads as `None`.
    Line(Option<String>),
    /// A CR came without an LF after it.
    Malformed,
}

/// Reads one CRLF-terminated line, a byte at a time.
pub struct LineReader {
    /// The bytes of the line so far.
    pub line: Vec<u8>,
    /// Whether the last byte was a CR.
    pub after_cr: bool,
}

impl LineReader {
    pub fn new() -> (r: LineReader)
        ensures
            r.line@ == Seq::<u8>::empty(),
            !r.after_cr,
    {
        LineReader { line: Vec::new(), after_cr: false }
    }

    pub fn feed(&mut self, b: u8) -> (r: LineStep)
        ensures
            !old(self).after_cr && b != 13 ==> r is More && final(self).line@ == old(self).line@.push(b)
                && !final(self).after_cr,
            !old(self).after_cr && b == 13 ==> r is More && final(self).line@ == old(self).line@
                && final(self).after_cr,
            old(self).after_cr && b == 10 ==> (r matches LineStep::Line(l) && opt_view(l) == line_of(
                old(self).line@,
            )),
            old(self).after_cr && b == 10 ==> final(self).line@ == Seq::<u8>::empty() && !final(self).after_cr,
            old(self).after_cr && b != 10 ==> r is Malformed,
    {
        if self.after_cr {
            if b == 10 {
                let l = if self.line.len() == 0 {
                    None
                } else {
                    Some(latin1_string(self.line.as_slice()))
                };
                self.line = Vec::new();
                self.after_cr = false;
                LineStep::Line(l)
            } else {
                LineStep::Malformed
            }
        } else if b == 13 {
            self.after_cr = true;
            LineStep::More
        } else {
            self.line.push(b);
            LineStep::More
        }
    }
}

/// Reads the line that starts at `start`: the bytes up to the first CR, which an
/// LF must follow. Gives the line (`None` when it is empty) and where the next
/// one starts.
pub fn read_line(bytes: &[u8], start: usize) -> (r: Result<(Option<String>, usize), HttpError>)
    requires
        start <= bytes@.len(),
    ensures
        ({
            let k = cr_from(bytes@, start as int);
            &&& k + 1 < bytes@.len() && bytes@[k + 1] == 10 ==> (r matches Ok((l, n)) && n == k + 2
                && opt_view(l) == line_of(bytes@.subrange(start as int, k)))
            &&& k + 1 < bytes@.len() && bytes@[k + 1] != 10 ==> (r matches Err(e) && e.kind@
                == "protocol"@)
            &&& k + 1 >= bytes@.len() ==> (r matches Err(e) && e.kind@ == "io"@)
        }),
{
    let mut rd = LineReader::new();
    let mut i = start;
    while i < bytes.len()
        invariant
            start <= i <= bytes@.len(),
            !rd.after_cr ==> rd.line@ == bytes@.subrange(start as int, i as int) && cr_from(
                bytes@,
                start as int,
            ) == cr_from(bytes@, i as int),
            rd.after_cr ==> i >= start + 1 && cr_from(bytes@, start as int) == i - 1
                && rd.line@ == bytes@.subrange(start as int, i - 1),
        decreases bytes@.len() - i,
    {
        let ghost was_cr = rd.after_cr;
        match rd.feed(bytes[i]) {
            LineStep::More => {
                proof {
                    if !was_cr && bytes@[i as int] != 13 {
                        assert(rd.line@ =~= bytes@.subrange(start as int, i + 1));
                    }
                }
                i += 1;
            },
            LineStep::Line(l) => {
                return Ok((l, i + 1));
            },
            LineStep::Malformed => {
                return Err(HttpError::new("protocol", "CR without LF"));
            },
        }
    }
    Err(HttpError::new("io", "the stream ended inside a line"))
}

} // verus!
