//! The failure kinds this layer reports.  Every error is returned to the
//! immediate caller: no retries and no logging happen here, the surrounding
//! protocol decides how to recover.

use vstd::prelude::*;

verus! {

/// What went wrong during a state-transfer operation.
#[derive(Clone, Copy, PartialEq, Eq, Structural, Debug)]
pub enum StateTransferError {
    /// A received part's digest does not match the content description
    /// committed in its descriptor.  Local and recoverable: the orchestrator
    /// may re-request the part.
    PartVerificationFailed,
    /// A part or descriptor carries a sequence number inconsistent with the
    /// in-progress transfer's target, or no transfer is in progress at all.
    SequenceMismatch,
    /// Finalization was requested before every part referenced by the target
    /// descriptor was accepted and verified.
    IncompleteState,
    /// Encode or decode failure from the active codec, propagated unchanged.
    SerializationFailure,
    /// The state was queried before it was initialized, or the underlying
    /// storage failed.
    StateUnavailable,
}

} // verus!
