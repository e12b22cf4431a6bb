//! Follows a database's changes feed: bytes that arrive in chunks of any
//! size are framed into records, one per line, and each record is decoded
//! into a typed event.

pub mod frame;
pub mod decode;
pub mod error;
pub mod event;
pub mod json;
pub mod package;
pub mod stream;

pub use decode::{decode, decode_parsed};
pub use error::StreamError;
pub use event::{Change, ChangeEvent, Event, FinishedEvent};
pub use frame::FrameAssembler;
pub use package::Package;
pub use stream::{ChangesStream, SourceEvent, Step};
