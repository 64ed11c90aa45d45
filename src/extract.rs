//! Keeping the last line of standard output that is a qualifying record: a
//! JSON object with both image-path keys. Lines that are no JSON, and JSON
//! values without both keys, are passed over.
use vstd::prelude::*;
use crate::json::{json_entries, json_get, json_parse, parse_json};
use crate::lines::{
    all_lines_plain, decode_line, joined, lemma_joined_append, lemma_split_joined, line_text,
    line_views, no_newline, split_stream, stream_lines, LineSplitter,
};

verus! {

/// The key of the first image path in a qualifying record.
pub open spec fn first_image_key() -> Seq<char> {
    "image_path_1"@
}

/// The key of the second image path in a qualifying record.
pub open spec fn second_image_key() -> Seq<char> {
    "image_path_2"@
}

/// A JSON value is a qualifying record when it is an object with both keys.
pub open spec fn qualifies(v: serde_json::Value) -> bool {
    json_entries(v).contains_key(first_image_key())
        && json_entries(v).contains_key(second_image_key())
}

/// The record that one line of text stands for, if it is one.
pub open spec fn record_of_line(line: Seq<char>) -> Option<serde_json::Value> {
    match json_parse(line) {
        Some(v) => if qualifies(v) {
            Some(v)
        } else {
            None
        },
        None => None,
    }
}

/// The record that one raw line of output stands for: none where the line is
/// no valid UTF-8.
pub open spec fn record_of_raw_line(raw: Seq<u8>) -> Option<serde_json::Value> {
    match line_text(raw) {
        Some(t) => record_of_line(t),
        None => None,
    }
}

/// The last present entry of a sequence.
pub open spec fn last_present(s: Seq<Option<serde_json::Value>>) -> Option<serde_json::Value>
    decreases s.len(),
{
    if s.len() == 0 {
        None
    } else if s.last() is Some {
        s.last()
    } else {
        last_present(s.drop_last())
    }
}

/// The last qualifying record among lines of text.
pub open spec fn last_record(lines: Seq<Seq<char>>) -> Option<serde_json::Value> {
    last_present(lines.map_values(|l: Seq<char>| record_of_line(l)))
}

/// The last qualifying record among raw lines of output.
pub open spec fn last_raw_record(lines: Seq<Seq<u8>>) -> Option<serde_json::Value> {
    last_present(lines.map_values(|l: Seq<u8>| record_of_raw_line(l)))
}

/// Last match wins: after one more line, the last record is that line's record
/// if it is one, and otherwise stays what it was.
pub proof fn lemma_last_match_wins(lines: Seq<Seq<char>>, line: Seq<char>)
    ensures
        record_of_line(line) is Some ==> last_record(lines.push(line)) == record_of_line(line),
        record_of_line(line) is None ==> last_record(lines.push(line)) == last_record(lines),
{
    let mapped = lines.push(line).map_values(|l: Seq<char>| record_of_line(l));
    assert(mapped.drop_last() =~= lines.map_values(|l: Seq<char>| record_of_line(l)));
}

/// Lines that are no records change nothing: the last record of lines is the
/// last record of those among them that are records.
pub proof fn lemma_last_record_is_last_qualifying(lines: Seq<Seq<char>>)
    ensures
        last_record(lines) is None <==> forall|i: int|
            0 <= i < lines.len() ==> #[trigger] record_of_line(lines[i]) is None,
        last_record(lines) matches Some(v) ==> exists|i: int|
            0 <= i < lines.len() && #[trigger] record_of_line(lines[i]) == Some(v) && forall|j: int|
                i < j < lines.len() ==> #[trigger] record_of_line(lines[j]) is None,
    decreases lines.len(),
{
    if lines.len() > 0 {
        let prefix = lines.drop_last();
        lemma_last_match_wins(prefix, lines.last());
        lemma_last_record_is_last_qualifying(prefix);
        assert(prefix.push(lines.last()) =~= lines);
        if record_of_line(lines.last()) is Some {
            assert(record_of_line(lines[lines.len() - 1]) is Some);
        } else {
            assert forall|i: int| 0 <= i < prefix.len() implies record_of_line(lines[i])
                == record_of_line(prefix[i]) by {}
            if let Some(v) = last_record(lines) {
                let i = choose|i: int|
                    0 <= i < prefix.len() && #[trigger] record_of_line(prefix[i]) == Some(v)
                        && forall|j: int|
                        i < j < prefix.len() ==> #[trigger] record_of_line(prefix[j]) is None;
                assert(record_of_line(lines[i]) == Some(v));
                assert forall|j: int| i < j < lines.len() implies #[trigger] record_of_line(
                    lines[j],
                ) is None by {
                    if j < prefix.len() {
                        assert(record_of_line(prefix[j]) is None);
                    }
                }
            }
        }
    }
}

/// The record retained so far.
pub struct RecordExtractor {
    retained: Option<serde_json::Value>,
}

impl View for RecordExtractor {
    type V = Option<serde_json::Value>;

    closed spec fn view(&self) -> Option<serde_json::Value> {
        self.retained
    }
}

impl RecordExtractor {
    pub fn new() -> (r: RecordExtractor)
        ensures
            r@ is None,
    {
        RecordExtractor { retained: None }
    }

    /// Takes what parsing a line gave: a qualifying record replaces the
    /// retained one, anything else leaves it as it was.
    pub fn offer_value(&mut self, parsed: Option<serde_json::Value>)
        ensures
            final(self)@ == (match parsed {
                Some(v) => if qualifies(v) {
                    Some(v)
                } else {
                    old(self)@
                },
                None => old(self)@,
            }),
    {
        match parsed {
            Some(v) => {
                let first = json_get(&v, "image_path_1");
                let second = json_get(&v, "image_path_2");
                if first.is_some() && second.is_some() {
                    self.retained = Some(v);
                }
            },
            None => {},
        }
    }

    /// Takes one line of text: last match wins.
    pub fn offer_line(&mut self, line: &str)
        ensures
            final(self)@ == (if record_of_line(line@) is Some {
                record_of_line(line@)
            } else {
                old(self)@
            }),
    {
        let parsed = parse_json(line);
        self.offer_value(parsed);
    }

    /// Takes one raw line of output; a line that is no valid UTF-8 is skipped.
    pub fn offer_raw_line(&mut self, raw: Vec<u8>)
        ensures
            final(self)@ == (if record_of_raw_line(raw@) is Some {
                record_of_raw_line(raw@)
            } else {
                old(self)@
            }),
    {
        match decode_line(raw) {
            Some(text) => self.offer_line(text.as_str()),
            None => {},
        }
    }

    /// The retained record, if any.
    pub fn into_record(self) -> (r: Option<serde_json::Value>)
        ensures
            r == self@,
    {
        self.retained
    }
}

/// The last qualifying record among `lines`, in their order.
pub fn extract_last(lines: &Vec<String>) -> (r: Option<serde_json::Value>)
    ensures
        r == last_record(lines@.map_values(|l: String| l@)),
{
    let mut extractor = RecordExtractor::new();
    let mut i: usize = 0;
    while i < lines.len()
        invariant
            i <= lines@.len(),
            extractor@ == last_record(lines@.subrange(0, i as int).map_values(|l: String| l@)),
        decreases lines@.len() - i,
    {
        let ghost before = lines@.subrange(0, i as int).map_values(|l: String| l@);
        let ghost after = lines@.subrange(0, i + 1).map_values(|l: String| l@);
        extractor.offer_line(lines[i].as_str());
        assert(after =~= before.push(lines@[i as int]@));
        assert(after.map_values(|l: Seq<char>| record_of_line(l)).drop_last()
            =~= before.map_values(|l: Seq<char>| record_of_line(l)));
        i = i + 1;
    }
    assert(lines@.subrange(0, lines@.len() as int) =~= lines@);
    extractor.into_record()
}

/// Standard output of the external process as it is read: the line splitter
/// feeding the record extractor.
pub struct StdoutDrain {
    splitter: LineSplitter,
    extractor: RecordExtractor,
    received: Ghost<Seq<u8>>,
    lines: Ghost<Seq<Seq<u8>>>,
}

impl StdoutDrain {
    /// The bytes read so far.
    pub closed spec fn received(&self) -> Seq<u8> {
        self.received@
    }

    /// The complete lines read so far, in order.
    pub closed spec fn lines(&self) -> Seq<Seq<u8>> {
        self.lines@
    }

    /// The bytes after the last complete line.
    pub closed spec fn pending(&self) -> Seq<u8> {
        self.splitter@
    }

    /// The record retained so far.
    pub closed spec fn record(&self) -> Option<serde_json::Value> {
        self.extractor@
    }

    /// The complete lines and the pending bytes make up what was read, and
    /// the retained record is the last one among the complete lines.
    pub closed spec fn wf(&self) -> bool {
        &&& self.splitter.wf()
        &&& all_lines_plain(self.lines@)
        &&& joined(self.lines@) + self.splitter@ == self.received@
        &&& self.extractor@ == last_raw_record(self.lines@)
    }

    pub fn new() -> (r: StdoutDrain)
        ensures
            r.wf(),
            r.received() == Seq::<u8>::empty(),
    {
        let r = StdoutDrain {
            splitter: LineSplitter::new(),
            extractor: RecordExtractor::new(),
            received: Ghost(Seq::empty()),
            lines: Ghost(Seq::empty()),
        };
        assert(joined(r.lines@) + r.splitter@ =~= Seq::<u8>::empty());
        r
    }

    /// Reads the next chunk and hands back the lines that it completes, for
    /// diagnostics.
    pub fn feed(&mut self, chunk: &[u8]) -> (out: Vec<Vec<u8>>)
        requires
            old(self).wf(),
        ensures
            final(self).wf(),
            final(self).received() == old(self).received() + chunk@,
            final(self).lines() == old(self).lines() + line_views(out@),
            final(self).lines() == split_stream(final(self).received()).0,
            final(self).pending() == split_stream(final(self).received()).1,
    {
        let ghost old_pending = self.splitter@;
        let out = self.splitter.push(chunk);
        let ghost start = self.lines@;
        let ghost new_pending = self.splitter@;
        let mut i: usize = 0;
        while i < out.len()
            invariant
                0 <= i <= out@.len(),
                self.lines@ == start,
                self.splitter@ == new_pending,
                self.splitter.wf(),
                self.received@ == old(self).received@,
                joined(start) + old_pending == old(self).received@,
                joined(line_views(out@)) + new_pending == old_pending + chunk@,
                all_lines_plain(start),
                all_lines_plain(line_views(out@)),
                self.extractor@ == last_raw_record(start + line_views(out@).subrange(0, i as int)),
            decreases out@.len() - i,
        {
            let ghost before = start + line_views(out@).subrange(0, i as int);
            let ghost after = start + line_views(out@).subrange(0, i + 1);
            let line = out[i].clone();
            self.extractor.offer_raw_line(line);
            assert(after =~= before.push(out@[i as int]@));
            assert(after.map_values(|l: Seq<u8>| record_of_raw_line(l)).drop_last()
                =~= before.map_values(|l: Seq<u8>| record_of_raw_line(l)));
            i = i + 1;
        }
        proof {
            assert(line_views(out@).subrange(0, out@.len() as int) =~= line_views(out@));
            lemma_joined_append(start, line_views(out@));
            assert(joined(start) + old_pending == self.received@);
            assert(joined(line_views(out@)) + self.splitter@ == old_pending + chunk@);
            assert(joined(start + line_views(out@)) + self.splitter@ =~= joined(start) + (
            joined(line_views(out@)) + self.splitter@));
            self.lines = Ghost(start + line_views(out@));
            self.received = Ghost(self.received@ + chunk@);
            assert(joined(self.lines@) + self.splitter@ =~= self.received@);
            assert forall|k: int| 0 <= k < self.lines@.len() implies #[trigger] no_newline(
                self.lines@[k],
            ) by {
                if k >= start.len() {
                    assert(self.lines@[k] == line_views(out@)[k - start.len()]);
                }
            }
            lemma_split_joined(self.lines@, self.splitter@);
        }
        out
    }

    /// Ends the stream: the unterminated trailing fragment, if any, counts as
    /// a last line. The result is the last qualifying record of all lines.
    pub fn finish(self) -> (r: Option<serde_json::Value>)
        requires
            self.wf(),
        ensures
            r == last_raw_record(stream_lines(self.received())),
    {
        proof {
            lemma_split_joined(self.lines@, self.splitter@);
        }
        let StdoutDrain { splitter, extractor, received, lines } = self;
        let mut extractor = extractor;
        match splitter.finish() {
            Some(tail) => {
                let ghost before = lines@;
                let ghost after = lines@.push(tail@);
                extractor.offer_raw_line(tail);
                assert(after.map_values(|l: Seq<u8>| record_of_raw_line(l)).drop_last()
                    =~= before.map_values(|l: Seq<u8>| record_of_raw_line(l)));
            },
            None => {},
        }
        extractor.into_record()
    }
}

} // verus!
