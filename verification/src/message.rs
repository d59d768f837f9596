//! The record model: severity levels, timestamps and immutable log messages.

use vstd::prelude::*;

mod builder;
mod date_time;
mod level;

pub use builder::{Error, MessageBuilder};
pub use date_time::{days_in_month, is_leap_year, Date, DateTime, Time};
pub use level::Level;

verus! {

/// One parsed log message.
///
/// A message always carries a severity level, a tag and its content; the
/// timestamp, process id and thread id are present only when the source
/// line supplied them.
#[derive(Clone, Debug, PartialEq, Eq)]
pub struct Message {
    pub level: Level,
    pub tag: String,
    pub content: String,
    pub date_time: Option<DateTime>,
    pub pid: Option<i32>,
    pub tid: Option<i32>,
}

impl Message {
    /// Returns the logging level specified with this message.
    pub fn level(&self) -> (r: Level)
        ensures
            r == self.level,
    {
        self.level
    }

    /// Returns the log tag specified with this message.
    pub fn tag(&self) -> (r: &str)
        ensures
            r@ == self.tag@,
    {
        self.tag.as_str()
    }

    /// Returns the content of this message.
    pub fn content(&self) -> (r: &str)
        ensures
            r@ == self.content@,
    {
        self.content.as_str()
    }

    /// Returns the date and time this message was logged.
    ///
    /// Returns `None` if the date and time is not available.
    pub fn date_time(&self) -> (r: Option<DateTime>)
        ensures
            r == self.date_time,
    {
        self.date_time
    }

    /// Returns the date this message was logged.
    ///
    /// Returns `None` if the date is not available.
    pub fn date(&self) -> (r: Option<Date>)
        ensures
            r == match self.date_time {
                Some(dt) => Some(dt.date),
                None => None::<Date>,
            },
    {
        match &self.date_time {
            Some(dt) => Some(dt.date()),
            None => None,
        }
    }

    /// Returns the time this message was logged.
    ///
    /// Returns `None` if the time is not available.
    pub fn time(&self) -> (r: Option<Time>)
        ensures
            r == match self.date_time {
                Some(dt) => Some(dt.time),
                None => None::<Time>,
            },
    {
        match &self.date_time {
            Some(dt) => Some(dt.time()),
            None => None,
        }
    }

    /// Returns the process ID of the process that logged this message.
    ///
    /// Returns `None` if the process ID is not available.
    pub fn process_id(&self) -> (r: Option<i32>)
        ensures
            r == self.pid,
    {
        self.pid
    }

    /// Returns the thread ID of the thread that logged this message.
    ///
    /// Returns `None` if the thread ID is not available.
    pub fn thread_id(&self) -> (r: Option<i32>)
        ensures
            r == self.tid,
    {
        self.tid
    }
}

} // verus!
