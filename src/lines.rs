//! Splitting a byte stream into lines as its chunks arrive.
//!
//! A line ends at a newline byte, which is not part of it. A line is handed out
//! only once its newline has arrived; at the end of the stream an unterminated
//! trailing fragment is handed out as a last line. Both output channels of the
//! external process go through this same policy.
use vstd::prelude::*;
use crate::json::{decode_utf8, utf8_text};

verus! {

pub const NEWLINE: u8 = 10;

pub const CARRIAGE_RETURN: u8 = 13;

/// No newline byte in `s`.
pub open spec fn no_newline(s: Seq<u8>) -> bool {
    forall|i: int| 0 <= i < s.len() ==> s[i] != NEWLINE
}

/// Each line followed by its newline, one after another: the bytes that a
/// sequence of complete lines was read from.
pub open spec fn joined(lines: Seq<Seq<u8>>) -> Seq<u8>
    decreases lines.len(),
{
    if lines.len() == 0 {
        Seq::empty()
    } else {
        joined(lines.drop_last()) + lines.last() + seq![NEWLINE]
    }
}

/// Every line of `lines` is free of newlines.
pub open spec fn all_lines_plain(lines: Seq<Seq<u8>>) -> bool {
    forall|i: int| 0 <= i < lines.len() ==> #[trigger] no_newline(lines[i])
}

/// Lines read one after another give their bytes one after another.
pub proof fn lemma_joined_append(a: Seq<Seq<u8>>, b: Seq<Seq<u8>>)
    ensures
        joined(a + b) == joined(a) + joined(b),
    decreases b.len(),
{
    if b.len() == 0 {
        assert(a + b =~= a);
        assert(joined(a) + joined(b) =~= joined(a));
    } else {
        lemma_joined_append(a, b.drop_last());
        assert((a + b).drop_last() =~= a + b.drop_last());
        assert((a + b).last() == b.last());
        assert(joined(a + b) =~= joined(a) + joined(b));
    }
}

/// A byte stream taken apart at its newlines: the complete lines, and the
/// bytes after the last newline.
pub open spec fn split_stream(b: Seq<u8>) -> (Seq<Seq<u8>>, Seq<u8>)
    decreases b.len(),
{
    if b.len() == 0 {
        (Seq::empty(), Seq::empty())
    } else {
        let (lines, rest) = split_stream(b.drop_last());
        if b.last() == NEWLINE {
            (lines.push(rest), Seq::empty())
        } else {
            (lines, rest.push(b.last()))
        }
    }
}

/// All lines of a stream that has ended: the complete lines, then the
/// trailing fragment where there is one.
pub open spec fn stream_lines(b: Seq<u8>) -> Seq<Seq<u8>> {
    if split_stream(b).1.len() == 0 {
        split_stream(b).0
    } else {
        split_stream(b).0.push(split_stream(b).1)
    }
}

/// Lines without newlines followed by a fragment without newlines are the
/// one way to take their bytes apart: however a stream was cut into chunks,
/// the lines handed out are the same.
pub proof fn lemma_split_joined(lines: Seq<Seq<u8>>, rest: Seq<u8>)
    requires
        all_lines_plain(lines),
        no_newline(rest),
    ensures
        split_stream(joined(lines) + rest) == (lines, rest),
    decreases lines.len(), rest.len(),
{
    let b = joined(lines) + rest;
    if rest.len() > 0 {
        lemma_split_joined(lines, rest.drop_last());
        assert(b.drop_last() =~= joined(lines) + rest.drop_last());
        assert(b.last() == rest.last());
        assert(rest.drop_last().push(rest.last()) =~= rest);
    } else if lines.len() > 0 {
        let front = lines.drop_last();
        assert forall|i: int| 0 <= i < front.len() implies #[trigger] no_newline(front[i]) by {
            assert(front[i] == lines[i]);
        }
        assert(no_newline(lines[lines.len() - 1]));
        lemma_split_joined(front, lines.last());
        assert(b =~= joined(front) + lines.last() + seq![NEWLINE]);
        assert(b.drop_last() =~= joined(front) + lines.last());
        assert(front.push(lines.last()) =~= lines);
    } else {
        assert(b =~= Seq::<u8>::empty());
    }
}

/// The contents of each line of a vector of lines.
pub open spec fn line_views(lines: Seq<Vec<u8>>) -> Seq<Seq<u8>> {
    lines.map_values(|l: Vec<u8>| l@)
}

/// A line without the carriage return that a CRLF terminator leaves at its end.
pub open spec fn strip_cr(raw: Seq<u8>) -> Seq<u8> {
    if raw.len() > 0 && raw.last() == CARRIAGE_RETURN {
        raw.drop_last()
    } else {
        raw
    }
}

/// The text of a raw line, or `None` where it is no valid UTF-8.
pub open spec fn line_text(raw: Seq<u8>) -> Option<Seq<char>> {
    utf8_text(strip_cr(raw))
}

/// The bytes of a stream that have arrived after its last newline.
pub struct LineSplitter {
    pending: Vec<u8>,
}

impl View for LineSplitter {
    type V = Seq<u8>;

    closed spec fn view(&self) -> Seq<u8> {
        self.pending@
    }
}

impl LineSplitter {
    /// The pending fragment never holds a newline.
    pub open spec fn wf(&self) -> bool {
        no_newline(self@)
    }

    pub fn new() -> (r: LineSplitter)
        ensures
            r.wf(),
            r@ == Seq::<u8>::empty(),
    {
        LineSplitter { pending: Vec::new() }
    }

    /// Takes the next chunk of the stream and hands out the lines it completes,
    /// in order. What the lines were read from, followed by what is still
    /// pending, is what was pending before followed by the chunk.
    pub fn push(&mut self, chunk: &[u8]) -> (lines: Vec<Vec<u8>>)
        requires
            old(self).wf(),
        ensures
            final(self).wf(),
            all_lines_plain(line_views(lines@)),
            joined(line_views(lines@)) + final(self)@ == old(self)@ + chunk@,
    {
        let mut lines: Vec<Vec<u8>> = Vec::new();
        let ghost start = self.pending@;
        let mut i: usize = 0;
        assert(joined(line_views(lines@)) =~= Seq::<u8>::empty());
        while i < chunk.len()
            invariant
                i <= chunk@.len(),
                no_newline(self.pending@),
                all_lines_plain(line_views(lines@)),
                joined(line_views(lines@)) + self.pending@ == start + chunk@.subrange(0, i as int),
            decreases chunk@.len() - i,
        {
            let b = chunk[i];
            let ghost done = joined(line_views(lines@));
            let ghost pend = self.pending@;
            assert(chunk@.subrange(0, i + 1) =~= chunk@.subrange(0, i as int).push(b));
            if b == NEWLINE {
                let mut line: Vec<u8> = Vec::new();
                std::mem::swap(&mut line, &mut self.pending);
                let ghost before = line_views(lines@);
                lines.push(line);
                assert(line_views(lines@) =~= before.push(line@));
                assert(line_views(lines@).drop_last() =~= before);
                assert(joined(line_views(lines@)) == joined(before) + line@ + seq![NEWLINE]);
                assert(joined(line_views(lines@)) + self.pending@ =~= (done + pend).push(b));
            } else {
                self.pending.push(b);
                assert(done + self.pending@ =~= (done + pend).push(b));
            }
            i = i + 1;
        }
        assert(chunk@.subrange(0, chunk@.len() as int) =~= chunk@);
        lines
    }

    /// Ends the stream: the unterminated trailing fragment, if there is one, is
    /// the last line.
    pub fn finish(self) -> (r: Option<Vec<u8>>)
        requires
            self.wf(),
        ensures
            self@.len() == 0 ==> r is None,
            self@.len() > 0 ==> (r matches Some(l) && l@ == self@),
            r matches Some(l) ==> no_newline(l@),
    {
        if self.pending.len() == 0 {
            None
        } else {
            Some(self.pending)
        }
    }
}

/// Decodes a raw line to text, dropping the carriage return of a CRLF
/// terminator. A line that is no valid UTF-8 gives `None`: its caller skips it
/// and the stream goes on.
pub fn decode_line(raw: Vec<u8>) -> (r: Option<String>)
    ensures
        r matches Some(t) ==> line_text(raw@) == Some(t@),
        r is None ==> line_text(raw@) is None,
{
    let mut bytes = raw;
    let n = bytes.len();
    if n > 0 && bytes[n - 1] == CARRIAGE_RETURN {
        bytes.pop();
        assert(bytes@ =~= raw@.drop_last());
    }
    decode_utf8(bytes)
}

} // verus!
