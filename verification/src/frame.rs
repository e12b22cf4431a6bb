//! Framing: from the bytes received so far to the records they hold.
//!
//! The feed is line oriented. A line ends with a line feed; before it may
//! stand a carriage return, and before that a comma that separates the
//! elements of the array the feed may be wrapped in. What is left of a line
//! without these is a record, unless it is too short to be one: the feed's
//! opening and closing lines and its empty keep-alive lines are dropped here.
//!
//! Length alone decides what is dropped; no line is parsed for it. A record
//! shorter than [`MIN_RECORD_LEN`] is lost with the noise, and a longer line
//! that is no record is handed out and fails when it is decoded.

use vstd::prelude::*;

verus! {

/// The byte that ends a line.
pub const LINE_FEED: u8 = 0x0A;

/// The byte that may stand before the line feed.
pub const CARRIAGE_RETURN: u8 = 0x0D;

/// The byte that separates two elements of the wrapping array.
pub const COMMA: u8 = 0x2C;

/// The least length of a record, counted once the line is stripped. A
/// stripped line below it is taken for the wrapper's own syntax or for a
/// keep-alive, and dropped.
pub const MIN_RECORD_LEN: usize = 15;

/// The number of bytes before the first line feed of `bytes`; `bytes.len()`
/// where it holds none.
pub open spec fn line_end(bytes: Seq<u8>) -> int
    decreases bytes.len(),
{
    if bytes.len() == 0 || bytes[0] == LINE_FEED {
        0
    } else {
        1 + line_end(bytes.drop_first())
    }
}

/// Whether `bytes` holds a whole line.
pub open spec fn has_line(bytes: Seq<u8>) -> bool {
    0 <= line_end(bytes) < bytes.len()
}

/// The first line of `bytes`, without its line feed.
pub open spec fn first_line(bytes: Seq<u8>) -> Seq<u8>
    recommends
        has_line(bytes),
{
    bytes.subrange(0, line_end(bytes))
}

/// What follows the first line of `bytes` and its line feed.
pub open spec fn after_first_line(bytes: Seq<u8>) -> Seq<u8>
    recommends
        has_line(bytes),
{
    bytes.subrange(line_end(bytes) + 1, bytes.len() as int)
}

/// `line` without `byte` at its end, if it ends with it.
pub open spec fn without_last(line: Seq<u8>, byte: u8) -> Seq<u8> {
    if line.len() > 0 && line.last() == byte {
        line.drop_last()
    } else {
        line
    }
}

/// A line, given without its line feed, stripped of the framing at its end:
/// one carriage return, then one comma.
pub open spec fn strip(line: Seq<u8>) -> Seq<u8> {
    without_last(without_last(line, CARRIAGE_RETURN), COMMA)
}

/// Whether a stripped line is dropped rather than handed out as a record.
pub open spec fn is_noise(record: Seq<u8>) -> bool {
    record.len() < MIN_RECORD_LEN
}

/// The first record that `buffer` holds, if any, and what is left of the
/// buffer once the record, and the noise before it, is taken out.
pub open spec fn next_record(buffer: Seq<u8>) -> (Option<Seq<u8>>, Seq<u8>)
    decreases buffer.len(),
{
    if has_line(buffer) {
        let record = strip(first_line(buffer));
        if is_noise(record) {
            next_record(after_first_line(buffer))
        } else {
            (Some(record), after_first_line(buffer))
        }
    } else {
        (None, buffer)
    }
}

/// All the records that `buffer` holds, in the order of their lines.
pub open spec fn records(buffer: Seq<u8>) -> Seq<Seq<u8>>
    decreases buffer.len(),
{
    if has_line(buffer) {
        let record = strip(first_line(buffer));
        let later = records(after_first_line(buffer));
        if is_noise(record) {
            later
        } else {
            seq![record] + later
        }
    } else {
        Seq::empty()
    }
}

/// What follows the last line feed of `buffer`: the part of a line that has
/// not ended yet.
pub open spec fn remainder(buffer: Seq<u8>) -> Seq<u8>
    decreases buffer.len(),
{
    if has_line(buffer) {
        remainder(after_first_line(buffer))
    } else {
        buffer
    }
}

/// The bounds of `line_end`: it counts bytes that are no line feed, and
/// stops at the first one that is.
pub proof fn lemma_line_end(bytes: Seq<u8>)
    ensures
        0 <= line_end(bytes) <= bytes.len(),
        forall|j: int| 0 <= j < line_end(bytes) ==> bytes[j] != LINE_FEED,
        line_end(bytes) < bytes.len() ==> bytes[line_end(bytes)] == LINE_FEED,
    decreases bytes.len(),
{
    if bytes.len() != 0 && bytes[0] != LINE_FEED {
        let tail = bytes.drop_first();
        lemma_line_end(tail);
        assert forall|j: int| 0 <= j < line_end(bytes) implies bytes[j] != LINE_FEED by {
            if j > 0 {
                assert(bytes[j] == tail[j - 1]);
            }
        }
        assert(line_end(bytes) < bytes.len() ==> bytes[line_end(bytes)] == tail[line_end(tail)]);
    }
}

/// A position that no line feed precedes, and that holds one or is the end
/// of `bytes`, is `line_end(bytes)`.
pub proof fn lemma_line_end_unique(bytes: Seq<u8>, end: int)
    requires
        0 <= end <= bytes.len(),
        forall|j: int| 0 <= j < end ==> bytes[j] != LINE_FEED,
        end < bytes.len() ==> bytes[end] == LINE_FEED,
    ensures
        line_end(bytes) == end,
{
    lemma_line_end(bytes);
    let found = line_end(bytes);
    if found < end {
        assert(bytes[found] == LINE_FEED);
    } else if end < found {
        assert(bytes[end] == LINE_FEED);
    }
}

/// The first line of a buffer ends at its first line feed, whatever bytes
/// follow: a line without a line feed, then a line feed, then `rest`, has
/// that line as its first and `rest` after it.
pub proof fn lemma_first_line(line: Seq<u8>, rest: Seq<u8>)
    requires
        !has_line(line),
    ensures
        has_line(line.push(LINE_FEED) + rest),
        first_line(line.push(LINE_FEED) + rest) == line,
        after_first_line(line.push(LINE_FEED) + rest) == rest,
{
    let buffer = line.push(LINE_FEED) + rest;
    lemma_line_end(line);
    assert forall|j: int| 0 <= j < line.len() implies buffer[j] != LINE_FEED by {
        assert(buffer[j] == line[j]);
    }
    assert(buffer[line.len() as int] == LINE_FEED);
    lemma_line_end_unique(buffer, line.len() as int);
    assert(first_line(buffer) =~= line);
    assert(after_first_line(buffer) =~= rest);
}

/// How `next_record` goes through `records`: the record it takes is the
/// first of them and the others are those of what it leaves; where it takes
/// none there is none, and it leaves the part of a line that has not ended.
pub proof fn lemma_next_record(buffer: Seq<u8>)
    ensures
        match next_record(buffer) {
            (Some(record), rest) => {
                &&& !is_noise(record)
                &&& rest.len() < buffer.len()
                &&& records(buffer) == seq![record] + records(rest)
                &&& remainder(buffer) == remainder(rest)
            },
            (None, rest) => {
                &&& records(buffer) == Seq::<Seq<u8>>::empty()
                &&& rest == remainder(buffer)
                &&& !has_line(rest)
            },
        },
    decreases buffer.len(),
{
    if has_line(buffer) {
        if is_noise(strip(first_line(buffer))) {
            lemma_next_record(after_first_line(buffer));
        }
    }
}

/// What is left after all records holds no whole line, and is no longer
/// than the buffer.
pub proof fn law_remainder_holds_no_line(buffer: Seq<u8>)
    ensures
        !has_line(remainder(buffer)),
        remainder(buffer).len() <= buffer.len(),
        records(remainder(buffer)) == Seq::<Seq<u8>>::empty(),
        remainder(remainder(buffer)) == remainder(buffer),
    decreases buffer.len(),
{
    if has_line(buffer) {
        law_remainder_holds_no_line(after_first_line(buffer));
    }
}

/// Records do not depend on where the bytes were cut: the records of
/// `head` followed by `tail` are those of `head`, then those of what `head`
/// leaves followed by `tail`.
pub proof fn law_records_of_append(head: Seq<u8>, tail: Seq<u8>)
    ensures
        records(head + tail) == records(head) + records(remainder(head) + tail),
        remainder(head + tail) == remainder(remainder(head) + tail),
    decreases head.len(),
{
    if has_line(head) {
        let whole = head + tail;
        let end = line_end(head);
        lemma_line_end(head);
        assert forall|j: int| 0 <= j < end implies whole[j] != LINE_FEED by {
            assert(whole[j] == head[j]);
        }
        assert(whole[end] == head[end]);
        lemma_line_end_unique(whole, end);
        assert(first_line(whole) =~= first_line(head));
        assert(after_first_line(whole) =~= after_first_line(head) + tail);
        law_records_of_append(after_first_line(head), tail);
        let later = records(remainder(head) + tail);
        if !is_noise(strip(first_line(head))) {
            assert(seq![strip(first_line(head))] + (records(after_first_line(head)) + later)
                =~= (seq![strip(first_line(head))] + records(after_first_line(head))) + later);
        }
    } else {
        assert(Seq::<Seq<u8>>::empty() + records(head + tail) =~= records(head + tail));
    }
}

/// A line that is noise once stripped is never handed out: the buffer
/// gives the records it would give without the line.
pub proof fn law_noise_is_absorbed(line: Seq<u8>, rest: Seq<u8>)
    requires
        !has_line(line),
        is_noise(strip(line)),
    ensures
        next_record(line.push(LINE_FEED) + rest) == next_record(rest),
        records(line.push(LINE_FEED) + rest) == records(rest),
        remainder(line.push(LINE_FEED) + rest) == remainder(rest),
{
    lemma_first_line(line, rest);
}

/// A carriage return before the line feed changes nothing: a line that
/// does not itself end with a carriage return gives the same record either
/// way.
pub proof fn law_carriage_return(line: Seq<u8>, rest: Seq<u8>)
    requires
        !has_line(line),
        line.len() == 0 || line.last() != CARRIAGE_RETURN,
    ensures
        next_record(line.push(CARRIAGE_RETURN).push(LINE_FEED) + rest) == next_record(
            line.push(LINE_FEED) + rest,
        ),
        records(line.push(CARRIAGE_RETURN).push(LINE_FEED) + rest) == records(
            line.push(LINE_FEED) + rest,
        ),
        remainder(line.push(CARRIAGE_RETURN).push(LINE_FEED) + rest) == remainder(
            line.push(LINE_FEED) + rest,
        ),
{
    let longer = line.push(CARRIAGE_RETURN);
    lemma_push_keeps_line(line, CARRIAGE_RETURN);
    lemma_first_line(line, rest);
    lemma_first_line(longer, rest);
    assert(longer.drop_last() =~= line);
    assert(strip(longer) == strip(line));
}

/// A comma at the end of a line changes nothing: a line that does not
/// itself end with a comma or a carriage return gives the same record with
/// a comma after it, before a line feed or before a carriage return and a
/// line feed.
pub proof fn law_trailing_comma(line: Seq<u8>, rest: Seq<u8>)
    requires
        !has_line(line),
        line.len() == 0 || (line.last() != CARRIAGE_RETURN && line.last() != COMMA),
    ensures
        next_record(line.push(COMMA).push(LINE_FEED) + rest) == next_record(
            line.push(LINE_FEED) + rest,
        ),
        records(line.push(COMMA).push(LINE_FEED) + rest) == records(line.push(LINE_FEED) + rest),
        remainder(line.push(COMMA).push(LINE_FEED) + rest) == remainder(
            line.push(LINE_FEED) + rest,
        ),
        next_record(line.push(COMMA).push(CARRIAGE_RETURN).push(LINE_FEED) + rest) == next_record(
            line.push(LINE_FEED) + rest,
        ),
        records(line.push(COMMA).push(CARRIAGE_RETURN).push(LINE_FEED) + rest) == records(
            line.push(LINE_FEED) + rest,
        ),
        remainder(line.push(COMMA).push(CARRIAGE_RETURN).push(LINE_FEED) + rest) == remainder(
            line.push(LINE_FEED) + rest,
        ),
{
    let longer = line.push(COMMA);
    lemma_push_keeps_line(line, COMMA);
    lemma_first_line(line, rest);
    lemma_first_line(longer, rest);
    assert(longer.drop_last() =~= line);
    assert(strip(longer) == strip(line));
    law_carriage_return(longer, rest);
}

/// A byte that is no line feed, put after bytes that hold no whole line,
/// makes no whole line.
proof fn lemma_push_keeps_line(line: Seq<u8>, byte: u8)
    requires
        !has_line(line),
        byte != LINE_FEED,
    ensures
        !has_line(line.push(byte)),
{
    let longer = line.push(byte);
    lemma_line_end(line);
    assert forall|j: int| 0 <= j < longer.len() implies longer[j] != LINE_FEED by {
        if j < line.len() {
            assert(longer[j] == line[j]);
        }
    }
    lemma_line_end_unique(longer, longer.len() as int);
}

/// Bytes received in chunks, waiting to be cut into records.
///
/// Chunks are appended at the end and records are taken from the front.
/// Its view is the bytes it holds.
pub struct FrameAssembler {
    buffer: Vec<u8>,
}

impl View for FrameAssembler {
    type V = Seq<u8>;

    closed spec fn view(&self) -> Seq<u8> {
        self.buffer@
    }
}

/// The number of bytes before the first line feed of `bytes`.
fn find_line_end(bytes: &Vec<u8>) -> (end: usize)
    ensures
        end == line_end(bytes@),
{
    let mut end: usize = 0;
    while end < bytes.len() && bytes[end] != LINE_FEED
        invariant
            end <= bytes.len(),
            forall|j: int| 0 <= j < end ==> bytes@[j] != LINE_FEED,
        decreases bytes.len() - end,
    {
        end += 1;
    }
    proof {
        lemma_line_end_unique(bytes@, end as int);
    }
    end
}

/// Removes `byte` from the end of `line`, if it stands there.
fn drop_last_if(line: &mut Vec<u8>, byte: u8)
    ensures
        final(line)@ == without_last(old(line)@, byte),
{
    let len = line.len();
    if len > 0 && line[len - 1] == byte {
        line.pop();
    }
}

impl FrameAssembler {
    /// An assembler that holds no bytes.
    pub fn new() -> (assembler: FrameAssembler)
        ensures
            assembler@ == Seq::<u8>::empty(),
    {
        FrameAssembler { buffer: Vec::new() }
    }

    /// The number of bytes that wait in the buffer.
    pub fn buffered(&self) -> (count: usize)
        ensures
            count == self@.len(),
    {
        self.buffer.len()
    }

    /// Appends the bytes of `chunk` to the buffer.
    pub fn feed(&mut self, chunk: &[u8])
        ensures
            final(self)@ == old(self)@ + chunk@,
    {
        let mut bytes = vstd::slice::slice_to_vec(chunk);
        self.buffer.append(&mut bytes);
    }

    /// Takes the first record out of the buffer.
    ///
    /// Lines are taken from the front, each with its line feed, until one
    /// is a record or no whole line is left. A line that is noise is gone
    /// from the buffer like the record itself; the bytes after the last
    /// whole line taken stay. Where nothing is taken, what stays is the
    /// beginning of one line at most.
    pub fn try_take_record(&mut self) -> (taken: Option<Vec<u8>>)
        ensures
            next_record(old(self)@) == (
                match taken {
                    Some(record) => Some(record@),
                    None => None,
                },
                final(self)@,
            ),
            taken matches Some(record) ==> !is_noise(record@),
            taken is None ==> !has_line(final(self)@),
    {
        proof {
            lemma_next_record(old(self)@);
        }
        loop
            invariant
                next_record(old(self)@) == next_record(self@),
            decreases self.buffer.len(),
        {
            let end = find_line_end(&self.buffer);
            proof {
                lemma_line_end(self@);
            }
            if end >= self.buffer.len() {
                return None;
            }
            let mut line = self.buffer.split_off(end + 1);
            core::mem::swap(&mut self.buffer, &mut line);
            line.truncate(end);
            drop_last_if(&mut line, CARRIAGE_RETURN);
            drop_last_if(&mut line, COMMA);
            if line.len() >= MIN_RECORD_LEN {
                return Some(line);
            }
        }
    }
}

} // verus!
