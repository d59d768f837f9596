//! The "threadtime"-format line decoder.
//!
//! A line of the nominal shape
//!
//! ```text
//! mm-dd hh:mm:ss.mmm pid tid L tag: content
//! ```
//!
//! is decoded field by field, in fixed order, into a [`Message`]; any
//! stage failure aborts the decode with an error naming the stage and the
//! offending text. The year is not part of the line; it is taken from the
//! ambient clock when the parser is created, or supplied by the caller.

use crate::message::{Date, DateTime, Level, Message, MessageBuilder, Time};
use crate::message::days_in_month;
use crate::parse::parser::Parser;
use crate::parse::text::{
    find_char_from, find_delim_from, has_token, i32_ok, i32_val,
    lemma_leading_whitespace_ignored, parse_i32, parse_u32, rest_after_token, scan_delim,
    skip_first, spec_is_space, spec_trim_end, spec_trim_start, split_once_char, split_once_ws,
    starts_with_char, token_of, trim_end, trim_start, u32_ok, u32_val,
};
use chrono::Datelike;
use vstd::pervasive::unreached;
use vstd::prelude::*;

verus! {

/// The decoding stage a failure belongs to.
#[derive(Clone, Copy, Debug, PartialEq, Eq, Structural)]
pub enum Stage {
    Date,
    Time,
    ProcessId,
    ThreadId,
    Level,
}

/// The error type for a failed line decode. Every variant identifies the
/// failing stage; those carrying a `String` also hold the offending text.
#[derive(Clone, Debug, PartialEq, Eq)]
pub enum DecodeError {
    /// The line is a section banner beginning with `-`, not a data record.
    RejectedBanner,
    /// No whitespace boundary ended the named field.
    MissingBoundary(Stage),
    /// The `mm-dd` token is missing its `-` or holds a bad number.
    MalformedDate(String),
    /// The `hh:mm:ss.mmm` token has too few groups or holds a bad number.
    MalformedTime(String),
    /// The process-id token is not a signed integer.
    MalformedProcessId(String),
    /// The thread-id token is not a signed integer.
    MalformedThreadId(String),
    /// The level token is empty or starts with an unknown code letter.
    UnknownLevelCode(String),
    /// No `:` ends the tag field.
    MissingTagDelimiter,
    /// The numeric fields do not form a valid calendar date and time.
    InvalidTimestamp,
}

/// Whether the line is a `logcat` section banner, rejected before any
/// field decoding begins.
pub open spec fn is_banner(line: Seq<char>) -> bool {
    line.len() > 0 && line[0] == '-'
}

/// The level a code letter selects.
pub open spec fn level_of_char(c: char) -> Option<Level> {
    if c == 'V' {
        Some(Level::Verbose)
    } else if c == 'D' {
        Some(Level::Debug)
    } else if c == 'I' {
        Some(Level::Info)
    } else if c == 'W' {
        Some(Level::Warning)
    } else if c == 'E' {
        Some(Level::Error)
    } else if c == 'F' {
        Some(Level::Fatal)
    } else {
        None
    }
}

/// Whether a `mm-dd` token splits at `-` into two `u32` numerals.
pub open spec fn date_token_ok(tok: Seq<char>) -> bool {
    let d = find_char_from(tok, 0, '-');
    &&& d < tok.len()
    &&& u32_ok(tok.take(d))
    &&& u32_ok(tok.skip(d + 1))
}

/// The month half of a `mm-dd` token.
pub open spec fn date_token_month(tok: Seq<char>) -> int {
    u32_val(tok.take(find_char_from(tok, 0, '-')))
}

/// The day half of a `mm-dd` token.
pub open spec fn date_token_day(tok: Seq<char>) -> int {
    u32_val(tok.skip(find_char_from(tok, 0, '-') + 1))
}

/// The end of the first group of a time token.
pub open spec fn time_d1(tok: Seq<char>) -> int {
    find_delim_from(tok, 0)
}

/// The end of the second group of a time token.
pub open spec fn time_d2(tok: Seq<char>) -> int {
    find_delim_from(tok, time_d1(tok) + 1)
}

/// The end of the third group of a time token.
pub open spec fn time_d3(tok: Seq<char>) -> int {
    find_delim_from(tok, time_d2(tok) + 1)
}

/// The end of the fourth group of a time token; further groups are
/// ignored.
pub open spec fn time_d4(tok: Seq<char>) -> int {
    find_delim_from(tok, time_d3(tok) + 1)
}

/// Whether a time token splits at `:` and `.` into at least four groups
/// whose first four are `u32` numerals.
pub open spec fn time_token_ok(tok: Seq<char>) -> bool {
    &&& time_d3(tok) < tok.len()
    &&& u32_ok(tok.subrange(0, time_d1(tok)))
    &&& u32_ok(tok.subrange(time_d1(tok) + 1, time_d2(tok)))
    &&& u32_ok(tok.subrange(time_d2(tok) + 1, time_d3(tok)))
    &&& u32_ok(tok.subrange(time_d3(tok) + 1, time_d4(tok)))
}

/// The hour group of a time token.
pub open spec fn time_token_hour(tok: Seq<char>) -> int {
    u32_val(tok.subrange(0, time_d1(tok)))
}

/// The minute group of a time token.
pub open spec fn time_token_minute(tok: Seq<char>) -> int {
    u32_val(tok.subrange(time_d1(tok) + 1, time_d2(tok)))
}

/// The second group of a time token.
pub open spec fn time_token_second(tok: Seq<char>) -> int {
    u32_val(tok.subrange(time_d2(tok) + 1, time_d3(tok)))
}

/// The millisecond group of a time token.
pub open spec fn time_token_milli(tok: Seq<char>) -> int {
    u32_val(tok.subrange(time_d3(tok) + 1, time_d4(tok)))
}

/// Whether a level token is non-empty and starts with a known code
/// letter.
pub open spec fn level_token_ok(tok: Seq<char>) -> bool {
    tok.len() > 0 && level_of_char(tok[0]) is Some
}

/// What remains of the line when the date token has been consumed.
pub open spec fn time_input(line: Seq<char>) -> Seq<char> {
    rest_after_token(line)
}

/// What remains of the line when the time token has been consumed.
pub open spec fn pid_input(line: Seq<char>) -> Seq<char> {
    rest_after_token(time_input(line))
}

/// What remains of the line when the process-id token has been consumed.
pub open spec fn tid_input(line: Seq<char>) -> Seq<char> {
    rest_after_token(pid_input(line))
}

/// What remains of the line when the thread-id token has been consumed.
pub open spec fn level_input(line: Seq<char>) -> Seq<char> {
    rest_after_token(tid_input(line))
}

/// What remains of the line when the level token has been consumed.
pub open spec fn tag_input(line: Seq<char>) -> Seq<char> {
    rest_after_token(level_input(line))
}

/// Whether the tag field of the line ends with a `:` delimiter.
pub open spec fn tag_has_delimiter(s: Seq<char>) -> bool {
    find_char_from(spec_trim_start(s), 0, ':') < spec_trim_start(s).len()
}

/// The tag a tag-stage input yields: the text before the first `:`, with
/// leading whitespace already consumed and trailing whitespace trimmed.
pub open spec fn tag_of_input(s: Seq<char>) -> Seq<char> {
    let t = spec_trim_start(s);
    spec_trim_end(t.take(find_char_from(t, 0, ':')))
}

/// `s` with exactly one leading character removed, whatever it is; the
/// single character conventionally following `:` is consumed this way.
pub open spec fn one_skipped(s: Seq<char>) -> Seq<char> {
    if s.len() == 0 {
        s
    } else {
        s.skip(1)
    }
}

/// The content a tag-stage input yields: everything past the first `:`
/// and the one character skipped after it, verbatim.
pub open spec fn content_of_input(s: Seq<char>) -> Seq<char> {
    let t = spec_trim_start(s);
    one_skipped(t.subrange(find_char_from(t, 0, ':') + 1, t.len() as int))
}

/// Whether the line decodes up to and including its date token.
pub open spec fn date_ok(line: Seq<char>) -> bool {
    &&& !is_banner(line)
    &&& has_token(line)
    &&& date_token_ok(token_of(line))
}

/// Whether the line decodes up to and including its time token.
pub open spec fn time_ok(line: Seq<char>) -> bool {
    &&& date_ok(line)
    &&& has_token(time_input(line))
    &&& time_token_ok(token_of(time_input(line)))
}

/// Whether the line decodes up to and including its process id.
pub open spec fn pid_ok(line: Seq<char>) -> bool {
    &&& time_ok(line)
    &&& has_token(pid_input(line))
    &&& i32_ok(token_of(pid_input(line)))
}

/// Whether the line decodes up to and including its thread id.
pub open spec fn tid_ok(line: Seq<char>) -> bool {
    &&& pid_ok(line)
    &&& has_token(tid_input(line))
    &&& i32_ok(token_of(tid_input(line)))
}

/// Whether the line decodes up to and including its level token.
pub open spec fn level_ok(line: Seq<char>) -> bool {
    &&& tid_ok(line)
    &&& has_token(level_input(line))
    &&& level_token_ok(token_of(level_input(line)))
}

/// Whether the line decodes up to and including its tag field.
pub open spec fn tag_ok(line: Seq<char>) -> bool {
    &&& level_ok(line)
    &&& tag_has_delimiter(tag_input(line))
}

/// The month the line carries.
pub open spec fn month_of(line: Seq<char>) -> int {
    date_token_month(token_of(line))
}

/// The day of month the line carries.
pub open spec fn day_of(line: Seq<char>) -> int {
    date_token_day(token_of(line))
}

/// The hour the line carries.
pub open spec fn hour_of(line: Seq<char>) -> int {
    time_token_hour(token_of(time_input(line)))
}

/// The minute the line carries.
pub open spec fn minute_of(line: Seq<char>) -> int {
    time_token_minute(token_of(time_input(line)))
}

/// The second the line carries.
pub open spec fn second_of(line: Seq<char>) -> int {
    time_token_second(token_of(time_input(line)))
}

/// The millisecond the line carries.
pub open spec fn milli_of(line: Seq<char>) -> int {
    time_token_milli(token_of(time_input(line)))
}

/// The process id the line carries.
pub open spec fn pid_of(line: Seq<char>) -> int {
    i32_val(token_of(pid_input(line)))
}

/// The thread id the line carries.
pub open spec fn tid_of(line: Seq<char>) -> int {
    i32_val(token_of(tid_input(line)))
}

/// The level the line carries.
pub open spec fn level_of(line: Seq<char>) -> Option<Level> {
    level_of_char(token_of(level_input(line))[0])
}

/// The tag the line carries.
pub open spec fn tag_of(line: Seq<char>) -> Seq<char> {
    tag_of_input(tag_input(line))
}

/// The content the line carries.
pub open spec fn content_of(line: Seq<char>) -> Seq<char> {
    content_of_input(tag_input(line))
}

/// Whether the numeric fields of the line, with `year` injected, form a
/// valid calendar date and time.
pub open spec fn timestamp_ok(line: Seq<char>, year: i32) -> bool {
    &&& 1 <= month_of(line) <= 12
    &&& 1 <= day_of(line) <= days_in_month(year as int, month_of(line))
    &&& hour_of(line) < 24
    &&& minute_of(line) < 60
    &&& second_of(line) < 60
    &&& milli_of(line) < 2000
}

/// What decoding `line` with the ambient year `year` returns: the fully
/// populated message on success, and otherwise the error of the first
/// stage that fails, holding the stage's identity and the offending
/// text.
pub open spec fn decode_result_matches(
    line: Seq<char>,
    year: i32,
    r: Result<Message, DecodeError>,
) -> bool {
    match r {
        Ok(m) => {
            &&& tag_ok(line)
            &&& timestamp_ok(line, year)
            &&& level_of(line) matches Some(level) && m.level == level
            &&& m.tag@ == tag_of(line)
            &&& m.content@ == content_of(line)
            &&& m.date_time matches Some(dt) && dt.date.year == year && dt.date.month
                == month_of(line) && dt.date.day == day_of(line) && dt.time.hour == hour_of(line)
                && dt.time.minute == minute_of(line) && dt.time.second == second_of(line)
                && dt.time.millisecond == milli_of(line)
            &&& m.pid matches Some(pid) && pid == pid_of(line)
            &&& m.tid matches Some(tid) && tid == tid_of(line)
        },
        Err(e) => {
            if is_banner(line) {
                e == DecodeError::RejectedBanner
            } else if !has_token(line) {
                e == DecodeError::MissingBoundary(Stage::Date)
            } else if !date_token_ok(token_of(line)) {
                e matches DecodeError::MalformedDate(t) && t@ == token_of(line)
            } else if !has_token(time_input(line)) {
                e == DecodeError::MissingBoundary(Stage::Time)
            } else if !time_token_ok(token_of(time_input(line))) {
                e matches DecodeError::MalformedTime(t) && t@ == token_of(time_input(line))
            } else if !has_token(pid_input(line)) {
                e == DecodeError::MissingBoundary(Stage::ProcessId)
            } else if !i32_ok(token_of(pid_input(line))) {
                e matches DecodeError::MalformedProcessId(t) && t@ == token_of(pid_input(line))
            } else if !has_token(tid_input(line)) {
                e == DecodeError::MissingBoundary(Stage::ThreadId)
            } else if !i32_ok(token_of(tid_input(line))) {
                e matches DecodeError::MalformedThreadId(t) && t@ == token_of(tid_input(line))
            } else if !has_token(level_input(line)) {
                e == DecodeError::MissingBoundary(Stage::Level)
            } else if !level_token_ok(token_of(level_input(line))) {
                e matches DecodeError::UnknownLevelCode(t) && t@ == token_of(level_input(line))
            } else if !tag_has_delimiter(tag_input(line)) {
                e == DecodeError::MissingTagDelimiter
            } else if !timestamp_ok(line, year) {
                e == DecodeError::InvalidTimestamp
            } else {
                false
            }
        },
    }
}

/// The fields accumulated while the stages of one decode run.
pub struct PartialMessage {
    pub month: u32,
    pub day: u32,
    pub hour: u32,
    pub minute: u32,
    pub second: u32,
    pub millisecond: u32,
    pub pid: i32,
    pub tid: i32,
    pub level: Level,
    pub tag: String,
}

impl Default for PartialMessage {
    /// An accumulator with every numeric field zero, the lowest level and
    /// an empty tag.
    fn default() -> (r: PartialMessage)
        ensures
            r.month == 0,
            r.day == 0,
            r.hour == 0,
            r.minute == 0,
            r.second == 0,
            r.millisecond == 0,
            r.pid == 0,
            r.tid == 0,
            r.level == Level::Verbose,
            r.tag@ == Seq::<char>::empty(),
    {
        PartialMessage {
            month: 0,
            day: 0,
            hour: 0,
            minute: 0,
            second: 0,
            millisecond: 0,
            pid: 0,
            tid: 0,
            level: Level::Verbose,
            tag: String::new(),
        }
    }
}

/// Whether the accumulated fields, with `year` injected, form a valid
/// calendar date and time.
pub open spec fn accumulated_timestamp_ok(msg: PartialMessage, year: i32) -> bool {
    &&& 1 <= msg.month <= 12
    &&& 1 <= msg.day <= days_in_month(year as int, msg.month as int)
    &&& msg.hour < 24
    &&& msg.minute < 60
    &&& msg.second < 60
    &&& msg.millisecond < 2000
}

/// A single-use decoder for one "threadtime"-format line.
pub struct ThreadTimeParser {
    pub msg: PartialMessage,
    pub year: i32,
}

/// Relies on `chrono::Local::now` and `chrono::Datelike::year`: the year
/// of the current local calendar date. The value depends on the clock
/// and the time zone of the machine, so nothing is promised of it.
#[verifier::external_body]
fn current_year() -> i32 {
    chrono::Local::now().year()
}

/// Parses a line of text into a message, taking the year from the
/// ambient clock.
pub fn threadtime(line: &str) -> (r: Result<Message, DecodeError>)
    ensures
        exists|y: i32| decode_result_matches(line@, y, r),
        (r matches Ok(m) && m.date_time matches Some(dt)) ==> decode_result_matches(
            line@,
            (r->Ok_0.date_time->0).date.year,
            r,
        ),
{
    let mut parser = ThreadTimeParser::new();
    let ghost y0 = parser.year;
    let r = parser.parse_line(line);
    proof {
        assert(decode_result_matches(line@, y0, r));
    }
    r
}

impl ThreadTimeParser {
    /// Creates a parser whose ambient year is read from the local clock.
    pub fn new() -> (r: ThreadTimeParser)
        ensures
            r.msg.month == 0,
            r.msg.day == 0,
            r.msg.hour == 0,
            r.msg.minute == 0,
            r.msg.second == 0,
            r.msg.millisecond == 0,
            r.msg.pid == 0,
            r.msg.tid == 0,
            r.msg.level == Level::Verbose,
            r.msg.tag@ == Seq::<char>::empty(),
    {
        ThreadTimeParser { msg: PartialMessage::default(), year: current_year() }
    }

    /// Creates a parser that decodes against the given year, making the
    /// decode deterministic.
    pub fn with_year(year: i32) -> (r: ThreadTimeParser)
        ensures
            r.year == year,
            r.msg.month == 0,
            r.msg.day == 0,
            r.msg.hour == 0,
            r.msg.minute == 0,
            r.msg.second == 0,
            r.msg.millisecond == 0,
            r.msg.pid == 0,
            r.msg.tid == 0,
            r.msg.level == Level::Verbose,
            r.msg.tag@ == Seq::<char>::empty(),
    {
        ThreadTimeParser { msg: PartialMessage::default(), year }
    }

    /// Decodes one line into a message, or returns the error of the
    /// first stage that fails.
    pub fn parse_line(&mut self, line: &str) -> (r: Result<Message, DecodeError>)
        ensures
            decode_result_matches(line@, old(self).year, r),
            final(self).year == old(self).year,
    {
        if starts_with_char(line, '-') {
            return Err(DecodeError::RejectedBanner);
        }
        self.msg = PartialMessage::default();
        let rest = match self.parse_date(line) {
            Ok(x) => x,
            Err(e) => {
                return Err(e);
            },
        };
        let rest = match self.parse_time(rest) {
            Ok(x) => x,
            Err(e) => {
                return Err(e);
            },
        };
        let rest = match self.parse_pid(rest) {
            Ok(x) => x,
            Err(e) => {
                return Err(e);
            },
        };
        let rest = match self.parse_tid(rest) {
            Ok(x) => x,
            Err(e) => {
                return Err(e);
            },
        };
        let rest = match self.parse_level(rest) {
            Ok(x) => x,
            Err(e) => {
                return Err(e);
            },
        };
        let rest = match self.parse_tag(rest) {
            Ok(x) => x,
            Err(e) => {
                return Err(e);
            },
        };
        self.parse_content(rest)
    }

    /// Consumes the `mm-dd` token: both halves of the token, split at
    /// `-`, are read as month and day.
    pub fn parse_date<'a>(&mut self, rest: &'a str) -> (r: Result<&'a str, DecodeError>)
        ensures
            final(self).year == old(self).year,
            match r {
                Ok(out) => {
                    &&& has_token(rest@)
                    &&& date_token_ok(token_of(rest@))
                    &&& out@ == rest_after_token(rest@)
                    &&& final(self).msg.month == date_token_month(token_of(rest@))
                    &&& final(self).msg.day == date_token_day(token_of(rest@))
                    &&& final(self).msg.hour == old(self).msg.hour
                    &&& final(self).msg.minute == old(self).msg.minute
                    &&& final(self).msg.second == old(self).msg.second
                    &&& final(self).msg.millisecond == old(self).msg.millisecond
                    &&& final(self).msg.pid == old(self).msg.pid
                    &&& final(self).msg.tid == old(self).msg.tid
                    &&& final(self).msg.level == old(self).msg.level
                    &&& final(self).msg.tag == old(self).msg.tag
                },
                Err(e) => {
                    if !has_token(rest@) {
                        e == DecodeError::MissingBoundary(Stage::Date)
                    } else {
                        !date_token_ok(token_of(rest@)) && (e matches DecodeError::MalformedDate(t)
                            && t@ == token_of(rest@))
                    }
                },
            },
    {
        let trimmed = trim_start(rest);
        let (month_day, out) = match split_once_ws(trimmed) {
            Some(p) => p,
            None => {
                return Err(DecodeError::MissingBoundary(Stage::Date));
            },
        };
        let (month_str, day_str) = match split_once_char(month_day, '-') {
            Some(p) => p,
            None => {
                return Err(DecodeError::MalformedDate(month_day.to_owned()));
            },
        };
        let month = match parse_u32(month_str) {
            Some(v) => v,
            None => {
                return Err(DecodeError::MalformedDate(month_day.to_owned()));
            },
        };
        let day = match parse_u32(day_str) {
            Some(v) => v,
            None => {
                return Err(DecodeError::MalformedDate(month_day.to_owned()));
            },
        };
        self.msg.month = month;
        self.msg.day = day;
        Ok(out)
    }

    /// Consumes the `hh:mm:ss.mmm` token: its first four groups, split
    /// at `:` and `.` alike, are read as hour, minute, second and
    /// millisecond.
    pub fn parse_time<'a>(&mut self, rest: &'a str) -> (r: Result<&'a str, DecodeError>)
        ensures
            final(self).year == old(self).year,
            match r {
                Ok(out) => {
                    &&& has_token(rest@)
                    &&& time_token_ok(token_of(rest@))
                    &&& out@ == rest_after_token(rest@)
                    &&& final(self).msg.hour == time_token_hour(token_of(rest@))
                    &&& final(self).msg.minute == time_token_minute(token_of(rest@))
                    &&& final(self).msg.second == time_token_second(token_of(rest@))
                    &&& final(self).msg.millisecond == time_token_milli(token_of(rest@))
                    &&& final(self).msg.month == old(self).msg.month
                    &&& final(self).msg.day == old(self).msg.day
                    &&& final(self).msg.pid == old(self).msg.pid
                    &&& final(self).msg.tid == old(self).msg.tid
                    &&& final(self).msg.level == old(self).msg.level
                    &&& final(self).msg.tag == old(self).msg.tag
                },
                Err(e) => {
                    if !has_token(rest@) {
                        e == DecodeError::MissingBoundary(Stage::Time)
                    } else {
                        !time_token_ok(token_of(rest@)) && (e matches DecodeError::MalformedTime(t)
                            && t@ == token_of(rest@))
                    }
                },
            },
    {
        let trimmed = trim_start(rest);
        let (time_tok, out) = match split_once_ws(trimmed) {
            Some(p) => p,
            None => {
                return Err(DecodeError::MissingBoundary(Stage::Time));
            },
        };
        let n = time_tok.unicode_len();
        let d1 = scan_delim(time_tok, 0);
        if d1 == n {
            return Err(DecodeError::MalformedTime(time_tok.to_owned()));
        }
        let d2 = scan_delim(time_tok, d1 + 1);
        if d2 == n {
            return Err(DecodeError::MalformedTime(time_tok.to_owned()));
        }
        let d3 = scan_delim(time_tok, d2 + 1);
        if d3 == n {
            return Err(DecodeError::MalformedTime(time_tok.to_owned()));
        }
        let d4 = scan_delim(time_tok, d3 + 1);
        let hour = match parse_u32(time_tok.substring_char(0, d1)) {
            Some(v) => v,
            None => {
                return Err(DecodeError::MalformedTime(time_tok.to_owned()));
            },
        };
        let minute = match parse_u32(time_tok.substring_char(d1 + 1, d2)) {
            Some(v) => v,
            None => {
                return Err(DecodeError::MalformedTime(time_tok.to_owned()));
            },
        };
        let second = match parse_u32(time_tok.substring_char(d2 + 1, d3)) {
            Some(v) => v,
            None => {
                return Err(DecodeError::MalformedTime(time_tok.to_owned()));
            },
        };
        let milli = match parse_u32(time_tok.substring_char(d3 + 1, d4)) {
            Some(v) => v,
            None => {
                return Err(DecodeError::MalformedTime(time_tok.to_owned()));
            },
        };
        self.msg.hour = hour;
        self.msg.minute = minute;
        self.msg.second = second;
        self.msg.millisecond = milli;
        Ok(out)
    }

    /// Consumes the process-id token, read as a signed integer.
    pub fn parse_pid<'a>(&mut self, rest: &'a str) -> (r: Result<&'a str, DecodeError>)
        ensures
            final(self).year == old(self).year,
            match r {
                Ok(out) => {
                    &&& has_token(rest@)
                    &&& i32_ok(token_of(rest@))
                    &&& out@ == rest_after_token(rest@)
                    &&& final(self).msg.pid == i32_val(token_of(rest@))
                    &&& final(self).msg.month == old(self).msg.month
                    &&& final(self).msg.day == old(self).msg.day
                    &&& final(self).msg.hour == old(self).msg.hour
                    &&& final(self).msg.minute == old(self).msg.minute
                    &&& final(self).msg.second == old(self).msg.second
                    &&& final(self).msg.millisecond == old(self).msg.millisecond
                    &&& final(self).msg.tid == old(self).msg.tid
                    &&& final(self).msg.level == old(self).msg.level
                    &&& final(self).msg.tag == old(self).msg.tag
                },
                Err(e) => {
                    if !has_token(rest@) {
                        e == DecodeError::MissingBoundary(Stage::ProcessId)
                    } else {
                        !i32_ok(token_of(rest@)) && (e matches DecodeError::MalformedProcessId(t)
                            && t@ == token_of(rest@))
                    }
                },
            },
    {
        let trimmed = trim_start(rest);
        let (pid_tok, out) = match split_once_ws(trimmed) {
            Some(p) => p,
            None => {
                return Err(DecodeError::MissingBoundary(Stage::ProcessId));
            },
        };
        let pid = match parse_i32(pid_tok) {
            Some(v) => v,
            None => {
                return Err(DecodeError::MalformedProcessId(pid_tok.to_owned()));
            },
        };
        self.msg.pid = pid;
        Ok(out)
    }

    /// Consumes the thread-id token, read as a signed integer.
    pub fn parse_tid<'a>(&mut self, rest: &'a str) -> (r: Result<&'a str, DecodeError>)
        ensures
            final(self).year == old(self).year,
            match r {
                Ok(out) => {
                    &&& has_token(rest@)
                    &&& i32_ok(token_of(rest@))
                    &&& out@ == rest_after_token(rest@)
                    &&& final(self).msg.tid == i32_val(token_of(rest@))
                    &&& final(self).msg.month == old(self).msg.month
                    &&& final(self).msg.day == old(self).msg.day
                    &&& final(self).msg.hour == old(self).msg.hour
                    &&& final(self).msg.minute == old(self).msg.minute
                    &&& final(self).msg.second == old(self).msg.second
                    &&& final(self).msg.millisecond == old(self).msg.millisecond
                    &&& final(self).msg.pid == old(self).msg.pid
                    &&& final(self).msg.level == old(self).msg.level
                    &&& final(self).msg.tag == old(self).msg.tag
                },
                Err(e) => {
                    if !has_token(rest@) {
                        e == DecodeError::MissingBoundary(Stage::ThreadId)
                    } else {
                        !i32_ok(token_of(rest@)) && (e matches DecodeError::MalformedThreadId(t)
                            && t@ == token_of(rest@))
                    }
                },
            },
    {
        let trimmed = trim_start(rest);
        let (tid_tok, out) = match split_once_ws(trimmed) {
            Some(p) => p,
            None => {
                return Err(DecodeError::MissingBoundary(Stage::ThreadId));
            },
        };
        let tid = match parse_i32(tid_tok) {
            Some(v) => v,
            None => {
                return Err(DecodeError::MalformedThreadId(tid_tok.to_owned()));
            },
        };
        self.msg.tid = tid;
        Ok(out)
    }

    /// Consumes the level token: its first character is mapped through
    /// the fixed code table `V D I W E F`.
    pub fn parse_level<'a>(&mut self, rest: &'a str) -> (r: Result<&'a str, DecodeError>)
        ensures
            final(self).year == old(self).year,
            match r {
                Ok(out) => {
                    &&& has_token(rest@)
                    &&& level_token_ok(token_of(rest@))
                    &&& out@ == rest_after_token(rest@)
                    &&& Some(final(self).msg.level) == level_of_char(token_of(rest@)[0])
                    &&& final(self).msg.month == old(self).msg.month
                    &&& final(self).msg.day == old(self).msg.day
                    &&& final(self).msg.hour == old(self).msg.hour
                    &&& final(self).msg.minute == old(self).msg.minute
                    &&& final(self).msg.second == old(self).msg.second
                    &&& final(self).msg.millisecond == old(self).msg.millisecond
                    &&& final(self).msg.pid == old(self).msg.pid
                    &&& final(self).msg.tid == old(self).msg.tid
                    &&& final(self).msg.tag == old(self).msg.tag
                },
                Err(e) => {
                    if !has_token(rest@) {
                        e == DecodeError::MissingBoundary(Stage::Level)
                    } else {
                        !level_token_ok(token_of(rest@)) && (e matches
                            DecodeError::UnknownLevelCode(t) && t@ == token_of(rest@))
                    }
                },
            },
    {
        let trimmed = trim_start(rest);
        let (level_tok, out) = match split_once_ws(trimmed) {
            Some(p) => p,
            None => {
                return Err(DecodeError::MissingBoundary(Stage::Level));
            },
        };
        let n = level_tok.unicode_len();
        if n == 0 {
            return Err(DecodeError::UnknownLevelCode(level_tok.to_owned()));
        }
        let c = level_tok.get_char(0);
        let level = if c == 'V' {
            Level::Verbose
        } else if c == 'D' {
            Level::Debug
        } else if c == 'I' {
            Level::Info
        } else if c == 'W' {
            Level::Warning
        } else if c == 'E' {
            Level::Error
        } else if c == 'F' {
            Level::Fatal
        } else {
            return Err(DecodeError::UnknownLevelCode(level_tok.to_owned()));
        };
        self.msg.level = level;
        Ok(out)
    }

    /// Consumes the tag field: the text before the first `:`, trimmed of
    /// trailing whitespace, then advances past exactly one character,
    /// whatever it is.
    pub fn parse_tag<'a>(&mut self, rest: &'a str) -> (r: Result<&'a str, DecodeError>)
        ensures
            final(self).year == old(self).year,
            match r {
                Ok(out) => {
                    &&& tag_has_delimiter(rest@)
                    &&& final(self).msg.tag@ == tag_of_input(rest@)
                    &&& out@ == content_of_input(rest@)
                    &&& final(self).msg.month == old(self).msg.month
                    &&& final(self).msg.day == old(self).msg.day
                    &&& final(self).msg.hour == old(self).msg.hour
                    &&& final(self).msg.minute == old(self).msg.minute
                    &&& final(self).msg.second == old(self).msg.second
                    &&& final(self).msg.millisecond == old(self).msg.millisecond
                    &&& final(self).msg.pid == old(self).msg.pid
                    &&& final(self).msg.tid == old(self).msg.tid
                    &&& final(self).msg.level == old(self).msg.level
                },
                Err(e) => !tag_has_delimiter(rest@) && e == DecodeError::MissingTagDelimiter,
            },
    {
        let trimmed = trim_start(rest);
        let (tag_raw, after) = match split_once_char(trimmed, ':') {
            Some(p) => p,
            None => {
                return Err(DecodeError::MissingTagDelimiter);
            },
        };
        let tag = trim_end(tag_raw);
        self.msg.tag = tag.to_owned();
        // Advance past one character, conventionally the space after `:`.
        let out = skip_first(after);
        Ok(out)
    }

    /// Assembles the timestamp from the accumulated numeric fields and
    /// the ambient year, and hands every field to the construction
    /// contract; the remaining text is the content, kept verbatim.
    pub fn parse_content(&mut self, rest: &str) -> (r: Result<Message, DecodeError>)
        ensures
            *final(self) == *old(self),
            match r {
                Ok(m) => {
                    &&& accumulated_timestamp_ok(old(self).msg, old(self).year)
                    &&& m.level == old(self).msg.level
                    &&& m.tag@ == old(self).msg.tag@
                    &&& m.content@ == rest@
                    &&& m.date_time matches Some(dt) && dt.date.year == old(self).year
                        && dt.date.month == old(self).msg.month && dt.date.day == old(
                        self,
                    ).msg.day && dt.time.hour == old(self).msg.hour && dt.time.minute == old(
                        self,
                    ).msg.minute && dt.time.second == old(self).msg.second && dt.time.millisecond
                        == old(self).msg.millisecond
                    &&& m.pid == Some(old(self).msg.pid)
                    &&& m.tid == Some(old(self).msg.tid)
                },
                Err(e) => {
                    &&& !accumulated_timestamp_ok(old(self).msg, old(self).year)
                    &&& e == DecodeError::InvalidTimestamp
                },
            },
    {
        let date_time = match DateTime::new(
            self.year,
            self.msg.month,
            self.msg.day,
            self.msg.hour,
            self.msg.minute,
            self.msg.second,
            self.msg.millisecond,
        ) {
            Some(dt) => dt,
            None => {
                return Err(DecodeError::InvalidTimestamp);
            },
        };
        let message = match MessageBuilder::new()
            .level(self.msg.level)
            .tag(self.msg.tag.as_str())
            .content(rest)
            .date_time(date_time)
            .process_id(self.msg.pid)
            .thread_id(self.msg.tid)
            .build() {
            Ok(m) => m,
            Err(_) => unreached(),
        };
        Ok(message)
    }
}

impl Parser for ThreadTimeParser {
    fn parse(&mut self, line: &str) -> Result<Message, DecodeError> {
        self.parse_line(line)
    }
}

/// The decode table and the display codes agree: the short code of any
/// level decodes back to that level.
pub proof fn lemma_short_code_decodes(level: Level)
    ensures
        level_of_char(level.spec_short()[0]) == Some(level),
{
    reveal_strlit("V");
    reveal_strlit("D");
    reveal_strlit("I");
    reveal_strlit("W");
    reveal_strlit("E");
    reveal_strlit("F");
}

/// A line beginning with `-` always fails to decode, whatever follows
/// and whatever the ambient year.
pub proof fn lemma_banner_always_rejected(
    line: Seq<char>,
    year: i32,
    r: Result<Message, DecodeError>,
)
    requires
        line.len() > 0,
        line[0] == '-',
        decode_result_matches(line, year, r),
    ensures
        r == Err::<Message, DecodeError>(DecodeError::RejectedBanner),
{
    match r {
        Ok(m) => {
            assert(date_ok(line));
            assert(!is_banner(line));
            assert(false);
        },
        Err(e) => {
            assert(is_banner(line));
        },
    }
}

/// A whitespace-free token followed by a whitespace boundary is consumed
/// whole, and the remainder starts right past that boundary.
proof fn lemma_token_boundary(tok: Seq<char>, rest: Seq<char>)
    requires
        tok.len() > 0,
        forall|i: int| 0 <= i < tok.len() ==> !spec_is_space(#[trigger] tok[i]),
        rest.len() > 0,
        spec_is_space(rest[0]),
    ensures
        has_token(tok + rest),
        token_of(tok + rest) == tok,
        rest_after_token(tok + rest) == rest.skip(1),
{
    let c = tok + rest;
    crate::parse::text::lemma_skip_spaces_at(c, 0, 0);
    assert(spec_trim_start(c) =~= c);
    assert forall|k: int| 0 <= k < tok.len() implies !spec_is_space(c[k]) by {
        assert(c[k] == tok[k]);
    }
    assert(c[tok.len() as int] == rest[0]);
    crate::parse::text::lemma_find_space_at(c, 0, tok.len() as int);
    assert(token_of(c) =~= tok);
    assert(rest_after_token(c) =~= rest.skip(1));
}

/// One whitespace-split stage: against an input of padding, a token and
/// a whitespace run before the remaining text, the token is consumed
/// whole and what remains is handed on past the first boundary
/// character.
proof fn lemma_padded_token_stage(pad: Seq<char>, tok: Seq<char>, w: Seq<char>, tail: Seq<char>)
    requires
        forall|i: int| 0 <= i < pad.len() ==> spec_is_space(#[trigger] pad[i]),
        tok.len() > 0,
        forall|i: int| 0 <= i < tok.len() ==> !spec_is_space(#[trigger] tok[i]),
        w.len() > 0,
        forall|i: int| 0 <= i < w.len() ==> spec_is_space(#[trigger] w[i]),
    ensures
        has_token(pad + (tok + (w + tail))),
        token_of(pad + (tok + (w + tail))) == tok,
        rest_after_token(pad + (tok + (w + tail))) == w.skip(1) + tail,
        forall|i: int|
            0 <= i < w.skip(1).len() ==> spec_is_space(#[trigger] w.skip(1)[i]),
{
    assert((w + tail)[0] == w[0]);
    lemma_token_boundary(tok, w + tail);
    lemma_leading_whitespace_ignored(pad, tok + (w + tail));
    assert((w + tail).skip(1) =~= w.skip(1) + tail);
    assert forall|i: int| 0 <= i < w.skip(1).len() implies spec_is_space(
        #[trigger] w.skip(1)[i],
    ) by {
        assert(w.skip(1)[i] == w[i + 1]);
    }
}

/// The tag field of an input `pad + tagtok + ":" + after`, where `pad`
/// is whitespace and `tagtok` holds no colon and no leading whitespace,
/// is `tagtok` trimmed of trailing whitespace only; the content is
/// `after` less the one character skipped after the colon.
proof fn lemma_tag_field(pad: Seq<char>, tagtok: Seq<char>, after: Seq<char>, s: Seq<char>)
    requires
        s == pad + tagtok + seq![':'] + after,
        forall|i: int| 0 <= i < pad.len() ==> spec_is_space(#[trigger] pad[i]),
        forall|i: int| 0 <= i < tagtok.len() ==> #[trigger] tagtok[i] != ':',
        tagtok.len() > 0 ==> !spec_is_space(tagtok[0]),
    ensures
        tag_has_delimiter(s),
        tag_of_input(s) == spec_trim_end(tagtok),
        content_of_input(s) == one_skipped(after),
{
    let body = tagtok + seq![':'] + after;
    assert(s =~= pad + body);
    assert forall|k: int| 0 <= k < pad.len() implies spec_is_space(s[k]) by {
        assert(s[k] == pad[k]);
    }
    assert(s[pad.len() as int] == body[0]);
    if tagtok.len() > 0 {
        assert(body[0] == tagtok[0]);
    } else {
        assert(body[0] == ':');
    }
    assert(!spec_is_space(s[pad.len() as int]));
    crate::parse::text::lemma_skip_spaces_at(s, 0, pad.len() as int);
    let t = spec_trim_start(s);
    assert(t =~= body);
    assert forall|k: int| 0 <= k < tagtok.len() implies t[k] != ':' by {
        assert(t[k] == tagtok[k]);
    }
    assert(t[tagtok.len() as int] == ':');
    crate::parse::text::lemma_find_char_at(t, 0, tagtok.len() as int, ':');
    assert(t.take(tagtok.len() as int) =~= tagtok);
    assert(t.subrange(tagtok.len() as int + 1, t.len() as int) =~= after);
}

/// The decomposition of a well-formed line: each stage consumes its
/// token whole, the tag is the text before the colon trimmed of trailing
/// whitespace, and the content is what follows the colon less one
/// character.
proof fn lemma_line_decomposition(
    lead: Seq<char>,
    dtok: Seq<char>,
    w1: Seq<char>,
    ttok: Seq<char>,
    w2: Seq<char>,
    ptok: Seq<char>,
    w3: Seq<char>,
    ktok: Seq<char>,
    w4: Seq<char>,
    ltok: Seq<char>,
    w5: Seq<char>,
    tagtok: Seq<char>,
    after: Seq<char>,
    line: Seq<char>,
)
    requires
        line == lead + dtok + w1 + ttok + w2 + ptok + w3 + ktok + w4 + ltok + w5 + tagtok
            + seq![':'] + after,
        forall|i: int| 0 <= i < lead.len() ==> spec_is_space(#[trigger] lead[i]),
        lead.len() == 0 ==> dtok[0] != '-',
        dtok.len() > 0,
        forall|i: int| 0 <= i < dtok.len() ==> !spec_is_space(#[trigger] dtok[i]),
        ttok.len() > 0,
        forall|i: int| 0 <= i < ttok.len() ==> !spec_is_space(#[trigger] ttok[i]),
        ptok.len() > 0,
        forall|i: int| 0 <= i < ptok.len() ==> !spec_is_space(#[trigger] ptok[i]),
        ktok.len() > 0,
        forall|i: int| 0 <= i < ktok.len() ==> !spec_is_space(#[trigger] ktok[i]),
        ltok.len() > 0,
        forall|i: int| 0 <= i < ltok.len() ==> !spec_is_space(#[trigger] ltok[i]),
        w1.len() > 0,
        forall|i: int| 0 <= i < w1.len() ==> spec_is_space(#[trigger] w1[i]),
        w2.len() > 0,
        forall|i: int| 0 <= i < w2.len() ==> spec_is_space(#[trigger] w2[i]),
        w3.len() > 0,
        forall|i: int| 0 <= i < w3.len() ==> spec_is_space(#[trigger] w3[i]),
        w4.len() > 0,
        forall|i: int| 0 <= i < w4.len() ==> spec_is_space(#[trigger] w4[i]),
        w5.len() > 0,
        forall|i: int| 0 <= i < w5.len() ==> spec_is_space(#[trigger] w5[i]),
        forall|i: int| 0 <= i < tagtok.len() ==> #[trigger] tagtok[i] != ':',
        tagtok.len() > 0 ==> !spec_is_space(tagtok[0]),
    ensures
        !is_banner(line),
        has_token(line),
        token_of(line) == dtok,
        has_token(time_input(line)),
        token_of(time_input(line)) == ttok,
        has_token(pid_input(line)),
        token_of(pid_input(line)) == ptok,
        has_token(tid_input(line)),
        token_of(tid_input(line)) == ktok,
        has_token(level_input(line)),
        token_of(level_input(line)) == ltok,
        tag_has_delimiter(tag_input(line)),
        tag_of(line) == spec_trim_end(tagtok),
        content_of(line) == one_skipped(after),
{
    let t6 = tagtok + seq![':'] + after;
    let t5 = ltok + (w5 + t6);
    let t4 = ktok + (w4 + t5);
    let t3 = ptok + (w3 + t4);
    let t2 = ttok + (w2 + t3);
    let t1 = dtok + (w1 + t2);
    assert(line =~= lead + t1) by {
        assert(line.len() == lead.len() + t1.len());
    }

    // The banner check does not fire: the line starts with whitespace
    // or with the first character of the date token, which is not `-`.
    if lead.len() > 0 {
        assert(line[0] == lead[0]);
        assert(spec_is_space(line[0]));
        assert(('-') as u32 == 0x2D);
        assert(!is_banner(line));
    } else {
        assert(line[0] == dtok[0]);
        assert(!is_banner(line));
    }

    // Each whitespace-split stage consumes its token whole and hands the
    // remainder on.
    lemma_padded_token_stage(lead, dtok, w1, t2);
    assert(token_of(line) == dtok);
    assert(time_input(line) == w1.skip(1) + t2);

    lemma_padded_token_stage(w1.skip(1), ttok, w2, t3);
    assert(token_of(time_input(line)) == ttok);
    assert(pid_input(line) == w2.skip(1) + t3);

    lemma_padded_token_stage(w2.skip(1), ptok, w3, t4);
    assert(token_of(pid_input(line)) == ptok);
    assert(tid_input(line) == w3.skip(1) + t4);

    lemma_padded_token_stage(w3.skip(1), ktok, w4, t5);
    assert(token_of(tid_input(line)) == ktok);
    assert(level_input(line) == w4.skip(1) + t5);

    lemma_padded_token_stage(w4.skip(1), ltok, w5, t6);
    assert(token_of(level_input(line)) == ltok);
    assert(tag_input(line) == w5.skip(1) + t6);

    // Tag field and content.
    assert(w5.skip(1) + t6 =~= w5.skip(1) + tagtok + seq![':'] + after);
    lemma_tag_field(w5.skip(1), tagtok, after, w5.skip(1) + tagtok + seq![':'] + after);
}

/// A well-formed threadtime line decodes successfully, and every field
/// of the message equals the corresponding input token, whatever widths
/// the whitespace runs between the fields have.
///
/// The line is `lead` (optional whitespace), then the date, time,
/// process-id, thread-id and level tokens each ended by a whitespace
/// run, then the tag text, a colon, and the remainder.
pub proof fn lemma_well_formed_line_decodes(
    lead: Seq<char>,
    dtok: Seq<char>,
    w1: Seq<char>,
    ttok: Seq<char>,
    w2: Seq<char>,
    ptok: Seq<char>,
    w3: Seq<char>,
    ktok: Seq<char>,
    w4: Seq<char>,
    ltok: Seq<char>,
    w5: Seq<char>,
    tagtok: Seq<char>,
    after: Seq<char>,
    line: Seq<char>,
    year: i32,
    r: Result<Message, DecodeError>,
)
    requires
        line == lead + dtok + w1 + ttok + w2 + ptok + w3 + ktok + w4 + ltok + w5 + tagtok
            + seq![':'] + after,
        forall|i: int| 0 <= i < lead.len() ==> spec_is_space(#[trigger] lead[i]),
        lead.len() == 0 ==> dtok[0] != '-',
        dtok.len() > 0,
        forall|i: int| 0 <= i < dtok.len() ==> !spec_is_space(#[trigger] dtok[i]),
        ttok.len() > 0,
        forall|i: int| 0 <= i < ttok.len() ==> !spec_is_space(#[trigger] ttok[i]),
        ptok.len() > 0,
        forall|i: int| 0 <= i < ptok.len() ==> !spec_is_space(#[trigger] ptok[i]),
        ktok.len() > 0,
        forall|i: int| 0 <= i < ktok.len() ==> !spec_is_space(#[trigger] ktok[i]),
        ltok.len() > 0,
        forall|i: int| 0 <= i < ltok.len() ==> !spec_is_space(#[trigger] ltok[i]),
        w1.len() > 0,
        forall|i: int| 0 <= i < w1.len() ==> spec_is_space(#[trigger] w1[i]),
        w2.len() > 0,
        forall|i: int| 0 <= i < w2.len() ==> spec_is_space(#[trigger] w2[i]),
        w3.len() > 0,
        forall|i: int| 0 <= i < w3.len() ==> spec_is_space(#[trigger] w3[i]),
        w4.len() > 0,
        forall|i: int| 0 <= i < w4.len() ==> spec_is_space(#[trigger] w4[i]),
        w5.len() > 0,
        forall|i: int| 0 <= i < w5.len() ==> spec_is_space(#[trigger] w5[i]),
        forall|i: int| 0 <= i < tagtok.len() ==> #[trigger] tagtok[i] != ':',
        tagtok.len() > 0 ==> !spec_is_space(tagtok[0]),
        date_token_ok(dtok),
        time_token_ok(ttok),
        i32_ok(ptok),
        i32_ok(ktok),
        level_of_char(ltok[0]) is Some,
        1 <= date_token_month(dtok) <= 12,
        1 <= date_token_day(dtok) <= days_in_month(year as int, date_token_month(dtok)),
        time_token_hour(ttok) < 24,
        time_token_minute(ttok) < 60,
        time_token_second(ttok) < 60,
        time_token_milli(ttok) < 2000,
        decode_result_matches(line, year, r),
    ensures
        r matches Ok(m) && {
            &&& m.level == level_of_char(ltok[0])->0
            &&& m.tag@ == spec_trim_end(tagtok)
            &&& m.content@ == one_skipped(after)
            &&& m.date_time matches Some(dt) && dt.date.year == year && dt.date.month
                == date_token_month(dtok) && dt.date.day == date_token_day(dtok) && dt.time.hour
                == time_token_hour(ttok) && dt.time.minute == time_token_minute(ttok)
                && dt.time.second == time_token_second(ttok) && dt.time.millisecond
                == time_token_milli(ttok)
            &&& m.pid matches Some(p) && p == i32_val(ptok)
            &&& m.tid matches Some(k) && k == i32_val(ktok)
        },
{
    lemma_line_decomposition(
        lead,
        dtok,
        w1,
        ttok,
        w2,
        ptok,
        w3,
        ktok,
        w4,
        ltok,
        w5,
        tagtok,
        after,
        line,
    );
    assert(tag_ok(line));
    assert(timestamp_ok(line, year));
    match r {
        Ok(m) => {},
        Err(e) => {
            assert(false);
        },
    }
}

} // verus!
