//! Parsers for Android `logcat` output formats.

pub mod parser;
pub mod text;
pub mod threadtime;

pub use threadtime::threadtime;
