use crate::error::LogError;
use vstd::prelude::*;

verus! {

/// A destination for formatted log lines. Implementations must be safe to call
/// from several threads at once, and must emit each line whole.
pub trait LogWriter: Send + Sync {
    /// `r` is a result that this writer may give when asked to emit `m`. What
    /// that means is each writer's own: I/O may fail for reasons outside it.
    /// A writer that does not define it rules out no result.
    open spec fn wrote(&self, m: Seq<char>, r: Result<(), LogError>) -> bool {
        true
    }

    /// Emits one formatted line, or reports why it could not.
    fn write(&self, message: &str) -> (r: Result<(), LogError>)
        ensures
            self.wrote(message@, r),
    ;
}

} // verus!
