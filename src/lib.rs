//! Leveled, timestamped logging that fans formatted lines out to pluggable sinks.
//!
//! Writers receive the flattened line `[YYYY-MM-DD HH:MM:SS] [LEVEL] message`,
//! not a structured event; a writer that needs the level (the console writer)
//! recovers it by parsing the line, and fails on a line that lacks the two
//! bracket groups.

pub mod composite_writer;
pub mod console_writer;
pub mod error;
pub mod file_writer;
pub mod level;
pub mod line;
pub mod logger;
pub mod timestamp;
pub mod writer;
