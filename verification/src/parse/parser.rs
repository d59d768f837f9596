//! The interface every line parser offers.

use crate::message::Message;
use crate::parse::threadtime::DecodeError;
use vstd::prelude::*;

verus! {

/// Parses from an Android logcat source.
pub trait Parser {
    /// Parses one line from an Android logcat source.
    ///
    /// Returns an error naming the failing field if parsing failed.
    fn parse(&mut self, line: &str) -> Result<Message, DecodeError>;
}

} // verus!
