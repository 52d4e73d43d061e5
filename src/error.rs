use vstd::prelude::*;

verus! {

/// What can go wrong while emitting a log line.
#[derive(Debug, Clone)]
pub enum LogError {
    /// The line does not carry the two bracket groups of the wire format;
    /// the offending line is kept.
    InvalidFormat(String),
    /// A sink could not perform its I/O; the description of the cause is kept.
    Io(String),
    /// A sink's lock could not be acquired.
    Lock(String),
}

} // verus!
