//! What can go wrong in a run.

use vstd::prelude::*;

verus! {

#[derive(Debug, Clone, Copy, PartialEq, Eq, Structural)]
pub enum DigestError {
    /// The expression engine refused one of the library's patterns.
    Pattern,
    /// The path of a document has no final component to show.
    SourceName,
    /// A timestamp names no calendar date and time.
    Timestamp,
}

} // verus!
