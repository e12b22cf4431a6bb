//! The stream of events: framing and decoding, driven by the bytes that a
//! source delivers.
//!
//! The stream does not read. It says what it needs next, and whoever owns
//! the source of bytes answers: [`ChangesStream::poll_next`] hands out the
//! next item or asks for more bytes, and [`ChangesStream::supply`] takes
//! what the source gave. A record that cannot be decoded is an item like
//! any other, and the stream goes on after it. When the source ends or
//! fails, the stream ends; bytes of a line that has not ended are dropped.
//! A failure of the source is no item: the one who pulled the bytes holds
//! the error and may report it.

use crate::decode::{decode, decoded, outcome};
use crate::error::{StreamError, StreamErrorView};
use crate::event::{Event, EventView};
use crate::frame::{
    has_line, law_carriage_return, law_records_of_append, law_trailing_comma, lemma_next_record,
    next_record, records, remainder, FrameAssembler, CARRIAGE_RETURN, COMMA, LINE_FEED,
};
use vstd::prelude::*;

verus! {

/// What the source of bytes answered when it was asked for more.
pub enum SourceEvent<'a> {
    /// More bytes of the feed.
    Chunk(&'a [u8]),
    /// The feed is over.
    End,
    /// The source failed.
    Failed,
}

/// What a [`SourceEvent`] holds.
pub enum SourceEventView {
    Chunk(Seq<u8>),
    End,
    Failed,
}

impl<'a> View for SourceEvent<'a> {
    type V = SourceEventView;

    open spec fn view(&self) -> SourceEventView {
        match self {
            SourceEvent::Chunk(bytes) => SourceEventView::Chunk(bytes@),
            SourceEvent::End => SourceEventView::End,
            SourceEvent::Failed => SourceEventView::Failed,
        }
    }
}

/// What the stream does next.
#[derive(Debug)]
pub enum Step {
    /// The next item of the stream: an event, or the error for a record
    /// that could not be decoded.
    Item(Result<Event, StreamError>),
    /// No record is complete: the stream needs what the source gives next.
    Pull,
    /// The stream is over.
    Done,
}

/// What a [`Step`] holds.
pub enum StepView {
    Item(Result<EventView, StreamErrorView>),
    Pull,
    Done,
}

impl View for Step {
    type V = StepView;

    open spec fn view(&self) -> StepView {
        match self {
            Step::Item(result) => StepView::Item(outcome(*result)),
            Step::Pull => StepView::Pull,
            Step::Done => StepView::Done,
        }
    }
}

/// A changes feed as a stream of events, without its source of bytes.
pub struct ChangesStream {
    frames: FrameAssembler,
    ended: bool,
}

/// What a [`ChangesStream`] holds: the bytes received and not yet handed
/// out, and whether the source has ended or failed.
pub struct StreamView {
    pub buffer: Seq<u8>,
    pub ended: bool,
}

impl View for ChangesStream {
    type V = StreamView;

    closed spec fn view(&self) -> StreamView {
        StreamView { buffer: self.frames@, ended: self.ended }
    }
}

/// One step of the stream: what it does next, and what it holds after.
pub open spec fn polled(state: StreamView) -> (StepView, StreamView) {
    if state.ended {
        (StepView::Done, state)
    } else {
        match next_record(state.buffer) {
            (Some(record), rest) => (
                StepView::Item(decoded(record)),
                StreamView { buffer: rest, ended: false },
            ),
            (None, rest) => (StepView::Pull, StreamView { buffer: rest, ended: false }),
        }
    }
}

/// What the stream holds after the source's answer: bytes are appended,
/// the end and a failure are remembered. A stream that has ended takes
/// nothing more.
pub open spec fn supplied(state: StreamView, event: SourceEventView) -> StreamView {
    if state.ended {
        state
    } else {
        match event {
            SourceEventView::Chunk(bytes) => StreamView {
                buffer: state.buffer + bytes,
                ended: false,
            },
            SourceEventView::End => StreamView { buffer: state.buffer, ended: true },
            SourceEventView::Failed => StreamView { buffer: state.buffer, ended: true },
        }
    }
}

/// The items that a buffer gives: each of its records, decoded.
pub open spec fn items(buffer: Seq<u8>) -> Seq<Result<EventView, StreamErrorView>> {
    records(buffer).map_values(|record: Seq<u8>| decoded(record))
}

/// The items of a stream that starts from `state` and whose source answers
/// with `source`, one answer each time the stream asks: the items of the
/// buffer, then, unless the stream has ended or the source has no answer
/// left, those that follow the next answer.
pub open spec fn run(state: StreamView, source: Seq<SourceEventView>) -> Seq<
    Result<EventView, StreamErrorView>,
>
    decreases source.len(),
{
    if state.ended {
        Seq::empty()
    } else if source.len() == 0 {
        items(state.buffer)
    } else {
        let waiting = StreamView { buffer: remainder(state.buffer), ended: false };
        items(state.buffer) + run(supplied(waiting, source[0]), source.drop_first())
    }
}

/// A source that delivers `chunks` in order and then ends.
pub open spec fn delivery(chunks: Seq<Seq<u8>>) -> Seq<SourceEventView> {
    chunks.map_values(|chunk: Seq<u8>| SourceEventView::Chunk(chunk)).push(SourceEventView::End)
}

impl ChangesStream {
    /// A stream that has received nothing yet.
    pub fn new() -> (stream: ChangesStream)
        ensures
            stream@ == (StreamView { buffer: Seq::empty(), ended: false }),
    {
        ChangesStream { frames: FrameAssembler::new(), ended: false }
    }

    /// The next step of the stream.
    ///
    /// Once the source has ended or failed the stream is done. Before that,
    /// the first record in the buffer is taken out, decoded and handed out,
    /// whether it decodes to an event or to an error; where the buffer
    /// holds no record, the stream asks for more bytes, and keeps only
    /// the beginning of a line that has not ended.
    pub fn poll_next(&mut self) -> (step: Step)
        ensures
            (step@, final(self)@) == polled(old(self)@),
            step is Pull ==> !has_line(final(self)@.buffer),
    {
        if self.ended {
            return Step::Done;
        }
        match self.frames.try_take_record() {
            Some(record) => Step::Item(decode(record)),
            None => Step::Pull,
        }
    }

    /// Takes what the source answered.
    pub fn supply(&mut self, event: SourceEvent<'_>)
        ensures
            final(self)@ == supplied(old(self)@, event@),
    {
        if !self.ended {
            match event {
                SourceEvent::Chunk(bytes) => {
                    self.frames.feed(bytes);
                },
                SourceEvent::End => {
                    self.ended = true;
                },
                SourceEvent::Failed => {
                    self.ended = true;
                },
            }
        }
    }
}

/// The items of two runs of bytes, one after the other, are the items of
/// the first and then those of the second.
proof fn lemma_items_of_records(first: Seq<Seq<u8>>, second: Seq<Seq<u8>>)
    ensures
        (first + second).map_values(|record: Seq<u8>| decoded(record)) == first.map_values(
            |record: Seq<u8>| decoded(record),
        ) + second.map_values(|record: Seq<u8>| decoded(record)),
{
    assert((first + second).map_values(|record: Seq<u8>| decoded(record)) =~= first.map_values(
        |record: Seq<u8>| decoded(record),
    ) + second.map_values(|record: Seq<u8>| decoded(record)));
}

/// `run` goes as the stream steps. An item that the stream hands out is
/// the first of the run, and the rest is the run from what the stream then
/// holds; where the stream asks for bytes, the run goes on from the
/// source's next answer, and is over if there is none; where the stream is
/// done, so is the run.
pub proof fn lemma_run_step(state: StreamView, source: Seq<SourceEventView>)
    ensures
        match polled(state) {
            (StepView::Item(item), next) => run(state, source) == seq![item] + run(next, source),
            (StepView::Pull, next) => run(state, source) == if source.len() == 0 {
                Seq::<Result<EventView, StreamErrorView>>::empty()
            } else {
                run(supplied(next, source[0]), source.drop_first())
            },
            (StepView::Done, _) => run(state, source) == Seq::<
                Result<EventView, StreamErrorView>,
            >::empty(),
        },
{
    if !state.ended {
        lemma_next_record(state.buffer);
        match next_record(state.buffer) {
            (Some(record), rest) => {
                lemma_items_of_records(seq![record], records(rest));
                assert(seq![record].map_values(|record: Seq<u8>| decoded(record)) =~= seq![
                    decoded(record),
                ]);
                let next = StreamView { buffer: rest, ended: false };
                if source.len() != 0 {
                    let later = run(
                        supplied(
                            StreamView { buffer: remainder(rest), ended: false },
                            source[0],
                        ),
                        source.drop_first(),
                    );
                    assert((seq![decoded(record)] + items(rest)) + later =~= seq![decoded(record)]
                        + (items(rest) + later));
                }
            },
            (None, rest) => {
                assert(items(state.buffer) =~= Seq::empty());
                if source.len() != 0 {
                    let later = run(supplied(polled(state).1, source[0]), source.drop_first());
                    assert(items(state.buffer) + later =~= later);
                }
            },
        }
    }
}

/// The items of a stream that holds `buffer` and then receives `chunks`
/// are the items of all these bytes in one piece.
pub proof fn lemma_run_of_delivery(buffer: Seq<u8>, chunks: Seq<Seq<u8>>)
    ensures
        run(StreamView { buffer, ended: false }, delivery(chunks)) == items(
            buffer + chunks.flatten(),
        ),
    decreases chunks.len(),
{
    let state = StreamView { buffer, ended: false };
    let source = delivery(chunks);
    let waiting = StreamView { buffer: remainder(buffer), ended: false };
    if chunks.len() == 0 {
        assert(buffer + chunks.flatten() =~= buffer);
        assert(run(supplied(waiting, source[0]), source.drop_first()) =~= Seq::empty());
        assert(items(buffer) + Seq::empty() =~= items(buffer));
    } else {
        let later = chunks.drop_first();
        assert(source.drop_first() =~= delivery(later));
        assert(supplied(waiting, source[0]) == StreamView {
            buffer: remainder(buffer) + chunks[0],
            ended: false,
        });
        lemma_run_of_delivery(remainder(buffer) + chunks[0], later);
        assert((remainder(buffer) + chunks[0]) + later.flatten() =~= remainder(buffer)
            + chunks.flatten());
        law_records_of_append(buffer, chunks.flatten());
        lemma_items_of_records(records(buffer), records(remainder(buffer) + chunks.flatten()));
    }
}

/// Chunk boundaries do not show: however the bytes of a feed are cut into
/// chunks, the stream gives the items that it gives when all the bytes come
/// in one chunk, the items of the bytes themselves.
pub proof fn law_chunk_boundaries(chunks: Seq<Seq<u8>>)
    ensures
        run(StreamView { buffer: Seq::empty(), ended: false }, delivery(chunks)) == items(
            chunks.flatten(),
        ),
        run(StreamView { buffer: Seq::empty(), ended: false }, delivery(chunks)) == run(
            StreamView { buffer: Seq::empty(), ended: false },
            delivery(seq![chunks.flatten()]),
        ),
{
    let whole = seq![chunks.flatten()];
    lemma_run_of_delivery(Seq::empty(), chunks);
    lemma_run_of_delivery(Seq::empty(), whole);
    whole.lemma_flatten_one_element();
    assert(Seq::<u8>::empty() + chunks.flatten() =~= chunks.flatten());
}

/// Two buffers with the same records and the same unfinished line give the
/// same items, whatever the source answers.
proof fn lemma_run_of_same_records(
    first: Seq<u8>,
    second: Seq<u8>,
    source: Seq<SourceEventView>,
)
    requires
        records(first) == records(second),
        remainder(first) == remainder(second),
    ensures
        run(StreamView { buffer: first, ended: false }, source) == run(
            StreamView { buffer: second, ended: false },
            source,
        ),
{
}

/// A record that ends with a carriage return and a line feed gives the
/// items of the same record that ends with a line feed alone.
pub proof fn law_line_ending(line: Seq<u8>, rest: Seq<u8>, source: Seq<SourceEventView>)
    requires
        !has_line(line),
        line.len() == 0 || line.last() != CARRIAGE_RETURN,
    ensures
        items(line.push(CARRIAGE_RETURN).push(LINE_FEED) + rest) == items(
            line.push(LINE_FEED) + rest,
        ),
        run(
            StreamView { buffer: line.push(CARRIAGE_RETURN).push(LINE_FEED) + rest, ended: false },
            source,
        ) == run(StreamView { buffer: line.push(LINE_FEED) + rest, ended: false }, source),
{
    law_carriage_return(line, rest);
    lemma_run_of_same_records(
        line.push(CARRIAGE_RETURN).push(LINE_FEED) + rest,
        line.push(LINE_FEED) + rest,
        source,
    );
}

/// A record with a comma after it gives the items of the same record
/// without the comma.
pub proof fn law_array_separator(line: Seq<u8>, rest: Seq<u8>, source: Seq<SourceEventView>)
    requires
        !has_line(line),
        line.len() == 0 || (line.last() != CARRIAGE_RETURN && line.last() != COMMA),
    ensures
        items(line.push(COMMA).push(LINE_FEED) + rest) == items(line.push(LINE_FEED) + rest),
        run(StreamView { buffer: line.push(COMMA).push(LINE_FEED) + rest, ended: false }, source)
            == run(StreamView { buffer: line.push(LINE_FEED) + rest, ended: false }, source),
{
    law_trailing_comma(line, rest);
    lemma_run_of_same_records(
        line.push(COMMA).push(LINE_FEED) + rest,
        line.push(LINE_FEED) + rest,
        source,
    );
}

/// Once the source has ended or failed the stream is done, and stays so:
/// it hands out no item, asks for nothing and takes nothing.
pub proof fn law_end_of_source(
    state: StreamView,
    event: SourceEventView,
    source: Seq<SourceEventView>,
)
    requires
        event is End || event is Failed,
    ensures
        polled(supplied(state, event)) == (StepView::Done, supplied(state, event)),
        forall|later: SourceEventView| #[trigger]
            supplied(supplied(state, event), later) == supplied(state, event),
        run(supplied(state, event), source) == Seq::<Result<EventView, StreamErrorView>>::empty(),
{
}

} // verus!
