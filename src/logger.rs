use crate::error::LogError;
use crate::level::LogLevel;
use crate::line::{format_line, line_text};
use crate::timestamp::{local_now, Timestamp};
use crate::writer::LogWriter;
use vstd::prelude::*;

verus! {

/// Turns a level and a message into the canonical line and hands it to the one
/// writer it owns. It holds no other state, so it needs no lock of its own.
pub struct Logger<W> {
    writer: W,
}

impl<W> Logger<W> {
    /// The writer that the logger owns.
    pub closed spec fn sink(&self) -> W {
        self.writer
    }

    /// A logger that owns `writer`.
    pub fn new(writer: W) -> (r: Self)
        ensures
            r.sink() == writer,
    {
        Logger { writer }
    }

    /// The writer that the logger owns.
    pub fn writer(&self) -> (r: &W)
        ensures
            *r == self.sink(),
    {
        &self.writer
    }
}

impl<W: LogWriter> Logger<W> {
    /// Hands the line for `message` at time `at` to the writer, once, and
    /// returns what the writer returned.
    pub fn log_at(&self, level: LogLevel, message: &str, at: &Timestamp) -> (r: Result<
        (),
        LogError,
    >)
        requires
            at.wf(),
        ensures
            self.sink().wrote(line_text(*at, level, message@), r),
    {
        let line = format_line(at, level, message);
        self.writer.write(line.as_str())
    }

    /// Reads the local time once, then hands the line for `message` at that
    /// time to the writer, once, and returns what the writer returned.
    pub fn log(&self, level: LogLevel, message: &str) -> (r: Result<(), LogError>)
        ensures
            exists|at: Timestamp| at.wf() && #[trigger] self.sink().wrote(
                line_text(at, level, message@),
                r,
            ),
    {
        let at = local_now();
        self.log_at(level, message, &at)
    }
}

} // verus!
