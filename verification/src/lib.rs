//! Parsing facilities for Android `logcat` output.
//!
//! One line of `logcat` "threadtime"-format text is decoded into an
//! immutable [`message::Message`]: a severity [`message::Level`], a tag,
//! the message content, and optional timestamp, process-id and thread-id
//! metadata.

pub mod message;
pub mod parse;

pub use message::Level;
