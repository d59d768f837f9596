//! Logging severity levels.

use vstd::prelude::*;

verus! {

/// Logging levels, in increasing order of severity:
/// `Verbose < Debug < Info < Warning < Error < Fatal`.
#[derive(Clone, Copy, Debug, PartialEq, Eq, Structural)]
pub enum Level {
    Verbose,
    Debug,
    Info,
    Warning,
    Error,
    Fatal,
}

impl Level {
    /// The rank of this level in the fixed severity order.
    pub open spec fn ordinal(self) -> int {
        match self {
            Level::Verbose => 0,
            Level::Debug => 1,
            Level::Info => 2,
            Level::Warning => 3,
            Level::Error => 4,
            Level::Fatal => 5,
        }
    }

    /// The single-letter code of this level, as a sequence of characters.
    pub open spec fn spec_short(self) -> Seq<char> {
        match self {
            Level::Verbose => "V"@,
            Level::Debug => "D"@,
            Level::Info => "I"@,
            Level::Warning => "W"@,
            Level::Error => "E"@,
            Level::Fatal => "F"@,
        }
    }

    /// Returns `true` if `Debug`, `Info`, `Warning`, `Error`, or `Fatal`.
    pub fn is_debug_or_higher(self) -> (r: bool)
        ensures
            r == (self.ordinal() >= 1),
    {
        match self {
            Level::Debug | Level::Info | Level::Warning | Level::Error | Level::Fatal => true,
            _ => false,
        }
    }

    /// Returns `true` if `Info`, `Warning`, `Error`, or `Fatal`.
    pub fn is_info_or_higher(self) -> (r: bool)
        ensures
            r == (self.ordinal() >= 2),
    {
        match self {
            Level::Info | Level::Warning | Level::Error | Level::Fatal => true,
            _ => false,
        }
    }

    /// Returns `true` if `Warning`, `Error`, or `Fatal`.
    pub fn is_warning_or_higher(self) -> (r: bool)
        ensures
            r == (self.ordinal() >= 3),
    {
        match self {
            Level::Warning | Level::Error | Level::Fatal => true,
            _ => false,
        }
    }

    /// Returns `true` if `Error` or `Fatal`.
    pub fn is_error_or_higher(self) -> (r: bool)
        ensures
            r == (self.ordinal() >= 4),
    {
        match self {
            Level::Error | Level::Fatal => true,
            _ => false,
        }
    }

    /// Returns the short description for this `Level`: one of
    /// `V`, `D`, `I`, `W`, `E`, `F`.
    pub fn short(self) -> (r: &'static str)
        ensures
            r@ == self.spec_short(),
    {
        match self {
            Level::Verbose => "V",
            Level::Debug => "D",
            Level::Info => "I",
            Level::Warning => "W",
            Level::Error => "E",
            Level::Fatal => "F",
        }
    }
}

/// The four threshold predicates are monotone and mutually consistent: a
/// level at or above `Error` is also at or above `Warning`, one at or above
/// `Warning` is also at or above `Info`, and one at or above `Info` is also
/// at or above `Debug`.
pub proof fn lemma_thresholds_monotone(level: Level)
    ensures
        level.ordinal() >= 4 ==> level.ordinal() >= 3,
        level.ordinal() >= 3 ==> level.ordinal() >= 2,
        level.ordinal() >= 2 ==> level.ordinal() >= 1,
{
}

} // verus!
