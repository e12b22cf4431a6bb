//! Decoding: from one record to the event it says, or to an error that
//! carries the record.

use crate::error::{StreamError, StreamErrorView};
use crate::event::{event_of, Event, EventView};
use crate::json::{custom_error, error_saying, json_of, json_parse, parse, Json};
use serde_json::Value;
use vstd::prelude::*;
use vstd::utf8::{decode_utf8, valid_utf8};

verus! {

/// What the error says of a record that is JSON and no event.
pub const NO_EVENT: &'static str = "data did not match any variant of untagged enum Event";

/// A record as text: its characters where it is UTF-8, nothing where it is
/// not.
pub open spec fn text_of(record: Seq<u8>) -> Seq<char> {
    if valid_utf8(record) {
        decode_utf8(record)
    } else {
        Seq::empty()
    }
}

/// What `record` decodes to once the parser has answered. A value that
/// stands for an event gives that event. Anything else gives
/// `ParsingFailed` with the record as text: with the parser's complaint
/// where it made one, with an error that says `NO_EVENT` where the value
/// stands for no event.
pub open spec fn decoded_from(parsed: Result<Json, serde_json::Error>, record: Seq<u8>) -> Result<
    EventView,
    StreamErrorView,
> {
    match parsed {
        Ok(json) => match event_of(json) {
            Some(event) => Ok(event),
            None => Err(
                StreamErrorView::ParsingFailed(error_saying(NO_EVENT@), text_of(record)),
            ),
        },
        Err(cause) => Err(StreamErrorView::ParsingFailed(cause, text_of(record))),
    }
}

/// What `record` decodes to.
pub open spec fn decoded(record: Seq<u8>) -> Result<EventView, StreamErrorView> {
    decoded_from(json_parse(record), record)
}

/// What a result of decoding holds.
pub open spec fn outcome(result: Result<Event, StreamError>) -> Result<
    EventView,
    StreamErrorView,
> {
    match result {
        Ok(event) => Ok(event@),
        Err(error) => Err(error@),
    }
}

/// What the parser's answer holds.
pub open spec fn parsed_view(parsed: Result<Value, serde_json::Error>) -> Result<
    Json,
    serde_json::Error,
> {
    match parsed {
        Ok(value) => Ok(json_of(value)),
        Err(cause) => Err(cause),
    }
}

/// `std::string::FromUtf8Error`, taken as it is: only that there is one is
/// ever read.
#[verifier::external_type_specification]
#[verifier::external_body]
pub struct ExFromUtf8Error(std::string::FromUtf8Error);

/// `String::from_utf8`: it succeeds on the bytes that are UTF-8, and the
/// string it then returns has the characters that the bytes encode.
pub assume_specification[ std::string::String::from_utf8 ](bytes: Vec<u8>) -> (text: Result<
    std::string::String,
    std::string::FromUtf8Error,
>)
    ensures
        match text {
            Ok(text) => valid_utf8(bytes@) && text@ == decode_utf8(bytes@),
            Err(_) => !valid_utf8(bytes@),
        },
;

/// The error for `record`, with the complaint `cause`.
fn parsing_failed(cause: serde_json::Error, record: Vec<u8>) -> (error: StreamError)
    ensures
        error@ == StreamErrorView::ParsingFailed(cause, text_of(record@)),
{
    let raw = match String::from_utf8(record) {
        Ok(text) => text,
        Err(_) => String::new(),
    };
    StreamError::ParsingFailed(cause, raw)
}

/// Decodes a record that the parser has answered for: `parsed` is what the
/// parser made of `record`.
pub fn decode_parsed(parsed: Result<Value, serde_json::Error>, record: Vec<u8>) -> (result: Result<
    Event,
    StreamError,
>)
    ensures
        outcome(result) == decoded_from(parsed_view(parsed), record@),
{
    match parsed {
        Ok(value) => match Event::from_value(&value) {
            Some(event) => Ok(event),
            None => Err(parsing_failed(custom_error(NO_EVENT), record)),
        },
        Err(cause) => Err(parsing_failed(cause, record)),
    }
}

/// Decodes one record: parses it as JSON and reads the event from the
/// value. A record that is no JSON, or JSON that stands for no event, gives
/// `ParsingFailed` with the record as text.
pub fn decode(record: Vec<u8>) -> (result: Result<Event, StreamError>)
    ensures
        outcome(result) == decoded(record@),
{
    let parsed = parse(record.as_slice());
    decode_parsed(parsed, record)
}

} // verus!
