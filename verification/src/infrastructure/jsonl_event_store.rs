//! The line format of the persisted event log.
//!
//! A log is a sequence of bytes holding one record per line: each record is
//! followed by a line feed. When a log is read, a carriage return before the
//! line feed is dropped, and lines that hold nothing but ASCII white space
//! are skipped. Turning records into events and back, and reading and
//! writing the file, is left to the caller.

use crate::domain::lemma_filter_push;
use std::marker::PhantomData;
use std::path::PathBuf;
use vstd::prelude::*;

verus! {

/// `std::path::PathBuf`, the location of a log. It is carried, never inspected.
#[verifier::external_type_specification]
#[verifier::external_body]
pub struct ExPathBuf(PathBuf);

/// Handle on an append-only log of records of type `T`, one per line.
#[derive(Debug)]
pub struct JsonlEventStore<T> {
    path: PathBuf,
    _marker: PhantomData<T>,
}

impl<T> JsonlEventStore<T> {
    /// The location of the log.
    pub closed spec fn location(&self) -> PathBuf {
        self.path
    }

    /// Creates a handle on the log at `path`. Nothing is opened or created.
    pub fn new(path: PathBuf) -> (store: Self)
        ensures
            store.location() == path,
    {
        JsonlEventStore { path, _marker: PhantomData }
    }

    /// Returns the location of the log.
    pub fn path(&self) -> (path: &PathBuf)
        ensures
            *path == self.location(),
    {
        &self.path
    }
}

/// The line feed that ends every line.
pub const LINE_FEED: u8 = 10;

/// The carriage return that may precede a line feed.
pub const CARRIAGE_RETURN: u8 = 13;

/// Whether `byte` is ASCII white space: a space, or one of the control
/// characters from tab to carriage return.
pub open spec fn is_space(byte: u8) -> bool {
    byte == 32 || (9 <= byte <= 13)
}

/// Whether `line` holds nothing but white space.
pub open spec fn is_blank(line: Seq<u8>) -> bool {
    forall|i: int| 0 <= i < line.len() ==> is_space(#[trigger] line[i])
}

/// The predicate that holds of the lines that are not blank.
pub open spec fn holds_record() -> spec_fn(Seq<u8>) -> bool {
    |line: Seq<u8>| !is_blank(line)
}

/// `line` without its last byte if that is a carriage return.
pub open spec fn without_return(line: Seq<u8>) -> Seq<u8> {
    if line.len() > 0 && line.last() == CARRIAGE_RETURN {
        line.drop_last()
    } else {
        line
    }
}

/// What follows the last line feed of `content`: the line that is still open.
pub open spec fn open_line(content: Seq<u8>) -> Seq<u8>
    decreases content.len(),
{
    if content.len() == 0 {
        Seq::empty()
    } else if content.last() == LINE_FEED {
        Seq::empty()
    } else {
        open_line(content.drop_last()).push(content.last())
    }
}

/// The lines of `content` that a line feed ends, each without the line feed
/// and without a carriage return before it.
pub open spec fn closed_lines(content: Seq<u8>) -> Seq<Seq<u8>>
    decreases content.len(),
{
    if content.len() == 0 {
        Seq::empty()
    } else if content.last() == LINE_FEED {
        closed_lines(content.drop_last()).push(without_return(open_line(content.drop_last())))
    } else {
        closed_lines(content.drop_last())
    }
}

/// The lines of `content`: those that a line feed ends and, if bytes follow
/// the last line feed, these as the last line.
pub open spec fn lines(content: Seq<u8>) -> Seq<Seq<u8>> {
    if open_line(content).len() > 0 {
        closed_lines(content).push(open_line(content))
    } else {
        closed_lines(content)
    }
}

/// The records of `content`: its lines that are not blank, in order.
pub open spec fn records(content: Seq<u8>) -> Seq<Seq<u8>> {
    lines(content).filter(holds_record())
}

/// The content of a log to which `records` were appended, one by one.
pub open spec fn framed(records: Seq<Seq<u8>>) -> Seq<u8>
    decreases records.len(),
{
    if records.len() == 0 {
        Seq::empty()
    } else {
        framed(records.drop_last()) + records.last().push(LINE_FEED)
    }
}

/// Whether `record` comes back as it is when it is read from a log: it
/// holds no line feed, does not end with a carriage return, and is not blank.
pub open spec fn is_record(record: Seq<u8>) -> bool {
    &&& forall|i: int| 0 <= i < record.len() ==> record[i] != LINE_FEED
    &&& without_return(record) == record
    &&& !is_blank(record)
}

/// Bytes without a line feed that follow closed lines form the open line
/// and close no line.
pub proof fn unfinished_line_stays_open(content: Seq<u8>, record: Seq<u8>)
    requires
        open_line(content).len() == 0,
        forall|i: int| 0 <= i < record.len() ==> record[i] != LINE_FEED,
    ensures
        open_line(content + record) == record,
        closed_lines(content + record) == closed_lines(content),
    decreases record.len(),
{
    if record.len() == 0 {
        assert(content + record == content);
    } else {
        let shorter = record.drop_last();
        assert((content + record).drop_last() == content + shorter);
        assert((content + record).last() == record.last());
        assert(record.last() == record[record.len() - 1]);
        assert forall|i: int| 0 <= i < shorter.len() implies shorter[i] != LINE_FEED by {
            assert(shorter[i] == record[i]);
        }
        unfinished_line_stays_open(content, shorter);
        assert(shorter.push(record.last()) == record);
    }
}

/// What was appended is what is loaded: the records of a log to which
/// records were appended, one by one, are these records, in order.
pub proof fn appended_records_are_loaded(appended: Seq<Seq<u8>>)
    requires
        forall|i: int| 0 <= i < appended.len() ==> is_record(#[trigger] appended[i]),
    ensures
        records(framed(appended)) == appended,
        open_line(framed(appended)).len() == 0,
        closed_lines(framed(appended)) == appended,
    decreases appended.len(),
{
    if appended.len() == 0 {
        assert(lines(framed(appended)).filter(holds_record()) == appended) by {
            reveal(Seq::filter);
        }
    } else {
        let earlier = appended.drop_last();
        let last = appended.last();
        assert(is_record(appended[appended.len() - 1]));
        assert forall|i: int| 0 <= i < earlier.len() implies is_record(#[trigger] earlier[i]) by {
            assert(earlier[i] == appended[i]);
        }
        appended_records_are_loaded(earlier);
        let before = framed(earlier);
        unfinished_line_stays_open(before, last);
        let content = framed(appended);
        assert(content == (before + last).push(LINE_FEED));
        assert(content.drop_last() == before + last);
        assert(closed_lines(content) == earlier.push(last));
        assert(earlier.push(last) == appended);
        assert(lines(content) == appended);
        lemma_filter_push(earlier, last, holds_record());
        assert(earlier.filter(holds_record()) == earlier) by {
            assert(lines(before) == earlier);
        }
    }
}

/// The contents of a list of byte strings.
pub open spec fn byte_views(list: Seq<Vec<u8>>) -> Seq<Seq<u8>> {
    list.map_values(|v: Vec<u8>| v@)
}

/// Frames one record as a line: the record followed by a line feed.
pub fn encode_line(record: &[u8]) -> (line: Vec<u8>)
    ensures
        line@ == record@.push(LINE_FEED),
{
    let mut line: Vec<u8> = Vec::new();
    let mut i: usize = 0;
    while i < record.len()
        invariant
            i <= record.len(),
            line@ == record@.take(i as int),
        decreases record.len() - i,
    {
        line.push(record[i]);
        assert(record@.take(i + 1) == record@.take(i as int).push(record@[i as int]));
        i = i + 1;
    }
    assert(record@.take(record.len() as int) == record@);
    line.push(LINE_FEED);
    line
}

/// Whether `line` holds nothing but white space.
pub fn blank(line: &Vec<u8>) -> (b: bool)
    ensures
        b == is_blank(line@),
{
    let mut i: usize = 0;
    while i < line.len()
        invariant
            i <= line.len(),
            forall|j: int| 0 <= j < i ==> is_space(#[trigger] line@[j]),
        decreases line.len() - i,
    {
        let byte = line[i];
        if !(byte == 32 || (9 <= byte && byte <= 13)) {
            return false;
        }
        i = i + 1;
    }
    true
}

/// Splits the content of a log into its records: the lines that are not
/// blank, each without its line feed and without a carriage return before it.
pub fn decode_lines(content: &[u8]) -> (out: Vec<Vec<u8>>)
    ensures
        byte_views(out@) == records(content@),
{
    let ghost keep = holds_record();
    let mut out: Vec<Vec<u8>> = Vec::new();
    let mut current: Vec<u8> = Vec::new();
    let mut i: usize = 0;
    proof {
        assert(closed_lines(content@.take(0)).filter(keep) =~= Seq::<Seq<u8>>::empty()) by {
            reveal(Seq::filter);
        }
        assert(byte_views(out@) =~= Seq::<Seq<u8>>::empty());
    }
    while i < content.len()
        invariant
            i <= content.len(),
            keep == holds_record(),
            current@ == open_line(content@.take(i as int)),
            byte_views(out@) == closed_lines(content@.take(i as int)).filter(keep),
        decreases content.len() - i,
    {
        let byte = content[i];
        let ghost seen = content@.take(i as int);
        let ghost next = content@.take(i + 1);
        proof {
            assert(next.drop_last() == seen);
            assert(next.last() == byte);
        }
        if byte == LINE_FEED {
            if current.len() > 0 && current[current.len() - 1] == CARRIAGE_RETURN {
                current.pop();
            }
            let ghost line = current@;
            proof {
                assert(line == without_return(open_line(seen)));
                lemma_filter_push(closed_lines(seen), line, keep);
            }
            if !blank(&current) {
                let ghost prev = out@;
                out.push(current);
                proof {
                    let grown = closed_lines(seen).filter(keep).push(line);
                    assert(byte_views(prev).len() == prev.len());
                    assert forall|a: int| 0 <= a < grown.len() implies byte_views(out@)[a]
                        == grown[a] by {
                        if a < prev.len() {
                            assert(byte_views(prev)[a] == closed_lines(seen).filter(keep)[a]);
                            assert(out@[a] == prev[a]);
                        }
                    }
                    assert(byte_views(out@) =~= grown);
                }
            }
            current = Vec::new();
        } else {
            current.push(byte);
        }
        i = i + 1;
    }
    proof {
        assert(content@.take(content.len() as int) == content@);
        lemma_filter_push(closed_lines(content@), current@, keep);
    }
    if current.len() > 0 {
        if !blank(&current) {
            let ghost prev = out@;
            let ghost line = current@;
            out.push(current);
            proof {
                let grown = closed_lines(content@).filter(keep).push(line);
                assert(byte_views(prev).len() == prev.len());
                assert forall|a: int| 0 <= a < grown.len() implies byte_views(out@)[a]
                    == grown[a] by {
                    if a < prev.len() {
                        assert(byte_views(prev)[a] == closed_lines(content@).filter(keep)[a]);
                        assert(out@[a] == prev[a]);
                    }
                }
                assert(byte_views(out@) =~= grown);
            }
        }
    }
    out
}

} // verus!
