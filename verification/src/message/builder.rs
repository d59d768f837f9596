//! Step-by-step construction of [`Message`] values.

use crate::message::{DateTime, Level, Message};
use vstd::prelude::*;

verus! {

/// The error type for [`MessageBuilder`] operations.
#[derive(Debug, PartialEq, Eq)]
pub enum Error {
    /// The specified field was not set.
    FieldNotSet(&'static str),
}

/// Builds [`Message`] in parts.
///
/// Fields are accumulated one at a time, in any order; [`MessageBuilder::build`]
/// validates that the three mandatory fields are present and yields the
/// message.
pub struct MessageBuilder {
    // Mandatory
    pub level: Option<Level>,
    pub tag: Option<String>,
    pub content: Option<String>,
    // Optional
    pub date_time: Option<DateTime>,
    pub pid: Option<i32>,
    pub tid: Option<i32>,
}

impl MessageBuilder {
    /// Creates a new MessageBuilder with no field set.
    pub fn new() -> (r: MessageBuilder)
        ensures
            r.level is None,
            r.tag is None,
            r.content is None,
            r.date_time is None,
            r.pid is None,
            r.tid is None,
    {
        MessageBuilder {
            level: None,
            tag: None,
            content: None,
            date_time: None,
            pid: None,
            tid: None,
        }
    }

    /// Sets the required message log level.
    pub fn level(self, value: Level) -> (r: MessageBuilder)
        ensures
            r.level == Some(value),
            r.tag == self.tag,
            r.content == self.content,
            r.date_time == self.date_time,
            r.pid == self.pid,
            r.tid == self.tid,
    {
        MessageBuilder { level: Some(value), ..self }
    }

    /// Sets the required message tag.
    pub fn tag(self, value: &str) -> (r: MessageBuilder)
        ensures
            r.tag is Some && r.tag->0@ == value@,
            r.level == self.level,
            r.content == self.content,
            r.date_time == self.date_time,
            r.pid == self.pid,
            r.tid == self.tid,
    {
        MessageBuilder { tag: Some(value.to_owned()), ..self }
    }

    /// Sets the required message content.
    pub fn content(self, value: &str) -> (r: MessageBuilder)
        ensures
            r.content is Some && r.content->0@ == value@,
            r.level == self.level,
            r.tag == self.tag,
            r.date_time == self.date_time,
            r.pid == self.pid,
            r.tid == self.tid,
    {
        MessageBuilder { content: Some(value.to_owned()), ..self }
    }

    /// Sets the optional message date and time.
    pub fn date_time(self, value: DateTime) -> (r: MessageBuilder)
        ensures
            r.date_time == Some(value),
            r.level == self.level,
            r.tag == self.tag,
            r.content == self.content,
            r.pid == self.pid,
            r.tid == self.tid,
    {
        MessageBuilder { date_time: Some(value), ..self }
    }

    /// Sets the optional message process ID.
    pub fn process_id(self, value: i32) -> (r: MessageBuilder)
        ensures
            r.pid == Some(value),
            r.level == self.level,
            r.tag == self.tag,
            r.content == self.content,
            r.date_time == self.date_time,
            r.tid == self.tid,
    {
        MessageBuilder { pid: Some(value), ..self }
    }

    /// Sets the optional message thread ID.
    pub fn thread_id(self, value: i32) -> (r: MessageBuilder)
        ensures
            r.tid == Some(value),
            r.level == self.level,
            r.tag == self.tag,
            r.content == self.content,
            r.date_time == self.date_time,
            r.pid == self.pid,
    {
        MessageBuilder { tid: Some(value), ..self }
    }

    /// Builds and returns the Message.
    ///
    /// An error naming the first missing field, in the order level, tag,
    /// content, is returned if one or more required fields were not set.
    pub fn build(&self) -> (r: Result<Message, Error>)
        ensures
            match r {
                Ok(m) => {
                    &&& self.level is Some
                    &&& self.tag is Some
                    &&& self.content is Some
                    &&& m.level == self.level->0
                    &&& m.tag == self.tag->0
                    &&& m.content == self.content->0
                    &&& m.date_time == self.date_time
                    &&& m.pid == self.pid
                    &&& m.tid == self.tid
                },
                Err(e) => {
                    &&& (self.level is None || self.tag is None || self.content is None)
                    &&& match e {
                        Error::FieldNotSet(field) => {
                            if self.level is None {
                                field@ == "level"@
                            } else if self.tag is None {
                                field@ == "tag"@
                            } else {
                                field@ == "content"@
                            }
                        },
                    }
                },
            },
    {
        let level = match &self.level {
            Some(level) => *level,
            None => {
                return Err(Error::FieldNotSet("level"));
            },
        };
        let tag = match &self.tag {
            Some(tag) => tag.clone(),
            None => {
                return Err(Error::FieldNotSet("tag"));
            },
        };
        let content = match &self.content {
            Some(content) => content.clone(),
            None => {
                return Err(Error::FieldNotSet("content"));
            },
        };
        Ok(
            Message {
                level,
                tag,
                content,
                date_time: self.date_time,
                pid: self.pid,
                tid: self.tid,
            },
        )
    }
}

} // verus!
