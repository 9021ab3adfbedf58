//! The error taxonomy of the bootstrap pipeline. Every failure is fatal to
//! the whole bootstrap: no partial election is ever produced.
use vstd::prelude::*;

verus! {

#[derive(Debug)]
pub enum BootstrapError {
    /// The height window `[start, end)` is empty: `start >= end`.
    EmptyHeightRange,
    /// The choices block holds no non-empty candidate line.
    NoCandidates,
    /// The key-derivation space was exhausted or the derivation itself failed.
    DerivationFailed,
    /// The ledger-sync collaborator reported a failure; its message is kept.
    SyncFailed(String),
    /// A commitment root was missing, malformed, or all zero.
    AggregationFailed,
}

impl BootstrapError {
    /// The single user-facing message for this error, fixed per variant.
    pub fn message(&self) -> (r: String)
        ensures
            self is EmptyHeightRange ==> r@
                == "the start height must be lower than the end height"@,
            self is NoCandidates ==> r@ == "the choices block holds no non-empty candidate line"@,
            self is DerivationFailed ==> r@ == "a candidate key could not be derived"@,
            self is SyncFailed ==> r@ == self->SyncFailed_0@,
            self is AggregationFailed ==> r@ == "the commitment roots could not be computed"@,
    {
        match self {
            BootstrapError::EmptyHeightRange => String::from_str(
                "the start height must be lower than the end height",
            ),
            BootstrapError::NoCandidates => String::from_str(
                "the choices block holds no non-empty candidate line",
            ),
            BootstrapError::DerivationFailed => String::from_str(
                "a candidate key could not be derived",
            ),
            BootstrapError::SyncFailed(msg) => msg.clone(),
            BootstrapError::AggregationFailed => String::from_str(
                "the commitment roots could not be computed",
            ),
        }
    }
}

} // verus!
