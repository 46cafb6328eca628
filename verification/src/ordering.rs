//! Sequence numbers and the ordering convention shared by both state
//! families: every checkpoint, descriptor and envelope message is tied to the
//! point of the replicated log it corresponds to.

use vstd::prelude::*;

verus! {

/// A sequence number: identifies the point of the replicated log that a
/// state snapshot or message corresponds to.
#[derive(Clone, Copy, PartialEq, Eq, Structural, Debug)]
pub struct SeqNo(pub u32);

impl SeqNo {
    /// The sequence number of the very first checkpoint.
    pub fn zero() -> (r: SeqNo)
        ensures
            r == SeqNo(0u32),
    {
        SeqNo(0)
    }

    /// The raw value, for callers that order snapshots.
    pub fn value(&self) -> (r: u32)
        ensures
            r == self.0,
    {
        self.0
    }
}

/// A value tagged with the sequence number of the checkpoint it belongs to.
pub trait Orderable: Sized {
    /// The sequence number, as the specification sees it.
    spec fn seq_spec(&self) -> SeqNo;

    /// The sequence number of the checkpoint this value belongs to.
    fn sequence_number(&self) -> (r: SeqNo)
        ensures
            r == self.seq_spec(),
    ;
}

} // verus!
