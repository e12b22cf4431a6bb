use changes_stream::{ChangesStream, Event, SourceEvent, Step, StreamError};
use serde_json::Value;

const PAYLOAD: &str = "{\"results\":[\n\
{\"seq\":5,\"id\":\"doc1\",\"changes\":[{\"rev\":\"1-abc\"}]},\n\
{\"seq\":6,\"id\":\"doc2\",\"changes\":[{\"rev\":\"2-xyz\"}],\"deleted\":true},\r\n\
\n\
{\"seq\":7,\"id\":\"doc3\",\"changes\":[{\"rev\":\"1-a\"},{\"rev\":\"1-b\"}\n\
{\"seq\":\"8-g1\",\"id\":\"doc4\",\"changes\":[],\"doc\":{\"_id\":\"doc4\"}}\n\
],\n\
{\"last_seq\":\"9-xyz\",\"pending\":0}\n";

/// Drives a stream with the chunks given, then the end of the source, and
/// collects what it hands out, each item as its debug text.
fn items_of(chunks: &[&[u8]]) -> Vec<String> {
    let mut stream = ChangesStream::new();
    let mut items = Vec::new();
    let mut next = 0;
    loop {
        match stream.poll_next() {
            Step::Item(item) => items.push(format!("{item:?}")),
            Step::Pull => {
                if next < chunks.len() {
                    stream.supply(SourceEvent::Chunk(chunks[next]));
                    next += 1;
                } else {
                    stream.supply(SourceEvent::End);
                }
            }
            Step::Done => return items,
        }
    }
}

fn item(step: Step) -> Result<Event, StreamError> {
    match step {
        Step::Item(item) => item,
        other => panic!("no item: {other:?}"),
    }
}

#[test]
fn a_payload_in_one_chunk_gives_its_events() {
    let items = items_of(&[PAYLOAD.as_bytes()]);
    assert_eq!(items.len(), 5);
    assert!(items[0].starts_with("Ok(Change(ChangeEvent { seq: Number(5), id: \"doc1\""));
    assert!(items[1].starts_with("Ok(Change(ChangeEvent { seq: Number(6), id: \"doc2\""));
    assert!(items[1].contains("deleted: true"));
    assert!(items[2].starts_with("Err(ParsingFailed("));
    assert!(items[2].contains("doc3"));
    assert!(items[3].starts_with("Ok(Change(ChangeEvent { seq: String(\"8-g1\"), id: \"doc4\""));
    assert!(items[4].starts_with("Ok(Finished(FinishedEvent { last_seq: String(\"9-xyz\")"));
}

#[test]
fn a_split_at_any_byte_gives_the_same_items() {
    let bytes = PAYLOAD.as_bytes();
    let whole = items_of(&[bytes]);
    for at in 0..=bytes.len() {
        let (head, tail) = bytes.split_at(at);
        assert_eq!(items_of(&[head, tail]), whole, "split at {at}");
    }
}

#[test]
fn two_splits_give_the_same_items() {
    let bytes = PAYLOAD.as_bytes();
    let whole = items_of(&[bytes]);
    for first in (0..=bytes.len()).step_by(7) {
        for second in (first..=bytes.len()).step_by(11) {
            let chunks = [&bytes[..first], &bytes[first..second], &bytes[second..]];
            assert_eq!(items_of(&chunks), whole, "splits at {first} and {second}");
        }
    }
}

#[test]
fn one_byte_at_a_time_gives_the_same_items() {
    let bytes = PAYLOAD.as_bytes();
    let chunks: Vec<&[u8]> = bytes.chunks(1).collect();
    assert_eq!(items_of(&chunks), items_of(&[bytes]));
}

#[test]
fn both_line_endings_give_the_same_event() {
    let plain = items_of(&[b"{\"seq\":5,\"id\":\"doc1\",\"changes\":[{\"rev\":\"1-abc\"}]}\n"]);
    let with_return =
        items_of(&[b"{\"seq\":5,\"id\":\"doc1\",\"changes\":[{\"rev\":\"1-abc\"}]}\r\n"]);
    assert_eq!(plain.len(), 1);
    assert!(plain[0].starts_with("Ok(Change("));
    assert_eq!(plain, with_return);
}

#[test]
fn a_comma_after_a_record_changes_nothing() {
    let plain = items_of(&[b"{\"seq\":5,\"id\":\"doc1\",\"changes\":[{\"rev\":\"1-abc\"}]}\n"]);
    let with_comma =
        items_of(&[b"{\"seq\":5,\"id\":\"doc1\",\"changes\":[{\"rev\":\"1-abc\"}]},\n"]);
    let with_both =
        items_of(&[b"{\"seq\":5,\"id\":\"doc1\",\"changes\":[{\"rev\":\"1-abc\"}]},\r\n"]);
    assert_eq!(plain.len(), 1);
    assert_eq!(plain, with_comma);
    assert_eq!(plain, with_both);
}

#[test]
fn the_prologue_and_empty_lines_give_no_item() {
    assert_eq!(items_of(&[b"{\"results\":[\n"]), Vec::<String>::new());
    assert_eq!(items_of(&[b"\n"]), Vec::<String>::new());
    assert_eq!(items_of(&[b"{\"results\":[\r\n\r\n\n],\n"]), Vec::<String>::new());
}

#[test]
fn the_stream_goes_on_after_a_record_that_fails() {
    let mut stream = ChangesStream::new();
    stream.supply(SourceEvent::Chunk(
        b"{\"seq\":5,\"id\":\"doc1\",\"chan\n{\"last_seq\":12}\n",
    ));
    match item(stream.poll_next()) {
        Err(StreamError::ParsingFailed(_, raw)) => {
            assert_eq!(raw, "{\"seq\":5,\"id\":\"doc1\",\"chan");
        }
        other => panic!("no parsing failure: {other:?}"),
    }
    match item(stream.poll_next()) {
        Ok(Event::Finished(finished)) => {
            assert_eq!(finished.last_seq, Value::from(12));
            assert_eq!(finished.pending, None);
        }
        other => panic!("no end of feed: {other:?}"),
    }
    assert!(matches!(stream.poll_next(), Step::Pull));
}

#[test]
fn a_new_stream_asks_for_bytes() {
    let mut stream = ChangesStream::new();
    assert!(matches!(stream.poll_next(), Step::Pull));
    assert!(matches!(stream.poll_next(), Step::Pull));
}

#[test]
fn the_end_of_the_source_with_an_empty_buffer_ends_the_stream() {
    let mut stream = ChangesStream::new();
    stream.supply(SourceEvent::Chunk(b"{\"last_seq\":12}\n"));
    assert!(matches!(stream.poll_next(), Step::Item(Ok(Event::Finished(_)))));
    assert!(matches!(stream.poll_next(), Step::Pull));
    stream.supply(SourceEvent::End);
    assert!(matches!(stream.poll_next(), Step::Done));
    assert!(matches!(stream.poll_next(), Step::Done));
}

#[test]
fn the_end_of_the_source_on_a_new_stream_ends_it() {
    let mut stream = ChangesStream::new();
    stream.supply(SourceEvent::End);
    assert!(matches!(stream.poll_next(), Step::Done));
}

#[test]
fn a_line_that_has_not_ended_is_dropped_at_the_end() {
    let mut stream = ChangesStream::new();
    stream.supply(SourceEvent::Chunk(b"{\"last_seq\":12}\n{\"last_seq\":13}"));
    assert!(matches!(stream.poll_next(), Step::Item(Ok(_))));
    assert!(matches!(stream.poll_next(), Step::Pull));
    stream.supply(SourceEvent::End);
    assert!(matches!(stream.poll_next(), Step::Done));
}

#[test]
fn a_failure_of_the_source_ends_the_stream() {
    let mut stream = ChangesStream::new();
    stream.supply(SourceEvent::Chunk(b"{\"last_seq\":12}\n{\"last_"));
    assert!(matches!(stream.poll_next(), Step::Item(Ok(_))));
    assert!(matches!(stream.poll_next(), Step::Pull));
    stream.supply(SourceEvent::Failed);
    assert!(matches!(stream.poll_next(), Step::Done));
}

#[test]
fn a_stream_that_has_ended_takes_nothing_more() {
    let mut stream = ChangesStream::new();
    stream.supply(SourceEvent::End);
    stream.supply(SourceEvent::Chunk(b"{\"last_seq\":12}\n"));
    assert!(matches!(stream.poll_next(), Step::Done));
    let mut stream = ChangesStream::new();
    stream.supply(SourceEvent::Failed);
    stream.supply(SourceEvent::Chunk(b"{\"last_seq\":12}\n"));
    stream.supply(SourceEvent::End);
    assert!(matches!(stream.poll_next(), Step::Done));
}

#[test]
fn an_empty_chunk_leaves_the_stream_asking() {
    let mut stream = ChangesStream::new();
    stream.supply(SourceEvent::Chunk(b"{\"last_seq\""));
    stream.supply(SourceEvent::Chunk(b""));
    assert!(matches!(stream.poll_next(), Step::Pull));
    stream.supply(SourceEvent::Chunk(b":12}\n"));
    assert!(matches!(stream.poll_next(), Step::Item(Ok(Event::Finished(_)))));
}
