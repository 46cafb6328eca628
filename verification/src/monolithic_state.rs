//! The monolithic state family: a state carried as one serializable blob.
//! Serialization must be deterministic and lossless, because the digest of a
//! state is computed over its serialized bytes and must match bit-for-bit
//! across replicas for state agreement to mean anything.

use vstd::prelude::*;

use crate::digest::{digest_of, Context, Digest};
use crate::error::StateTransferError;
use crate::ordering::SeqNo;

verus! {

/// A state representable as a single serializable value.
///
/// `bytes_spec` is the value's canonical serialized byte stream, a function
/// of the value alone: that is what makes serialization deterministic, and
/// what ties the digest of a state to its content.
pub trait MonolithicState: Sized {
    /// The canonical serialized byte stream of this value.
    spec fn bytes_spec(&self) -> Seq<u8>;

    /// Whether the active codec can serialize this value.
    spec fn serializable(&self) -> bool;

    /// The logical size of the value, a capacity hint for callers that
    /// pre-size buffers.  Not correctness-critical: a wrong hint must not
    /// change any serialized byte or digest.
    spec fn size_spec(&self) -> int;

    /// Serialize this value into its canonical byte stream.
    fn serialize_state(&self) -> (r: Result<Vec<u8>, StateTransferError>)
        ensures
            r is Ok <==> self.serializable(),
            r is Ok ==> r->Ok_0@ == self.bytes_spec(),
            r is Err ==> r->Err_0 == StateTransferError::SerializationFailure,
    ;

    /// Deserialize a value from a byte stream produced by `serialize_state`.
    /// Succeeds on every byte stream that some serializable value serializes
    /// to, and reproduces exactly that stream's content.
    fn deserialize_state(bytes: &[u8]) -> (r: Result<Self, StateTransferError>)
        ensures
            r is Ok ==> r->Ok_0.bytes_spec() == bytes@ && r->Ok_0.serializable(),
            (exists|s: Self| s.serializable() && (#[trigger] s.bytes_spec()) == bytes@) ==> r is Ok,
            r is Err ==> r->Err_0 == StateTransferError::SerializationFailure,
    ;

    /// The logical size hint.
    fn size(&self) -> (r: usize)
        ensures
            r == self.size_spec(),
    ;
}

/// Serialize a state and digest the serialized bytes through an incremental
/// hashing context.  The digest is therefore a function of the canonical
/// byte stream alone.
pub fn digest_state<S: MonolithicState>(appstate: &S) -> (r: Result<
    Digest,
    StateTransferError,
>)
    ensures
        r is Ok <==> appstate.serializable(),
        r is Ok ==> r->Ok_0@ == digest_of(appstate.bytes_spec()),
        r is Err ==> r->Err_0 == StateTransferError::SerializationFailure,
{
    let state_vec = match appstate.serialize_state() {
        Ok(v) => v,
        Err(e) => {
            return Err(e);
        },
    };
    let mut ctx = Context::new();
    ctx.update(state_vec.as_slice());
    proof {
        assert(Seq::<u8>::empty() + state_vec@ =~= state_vec@);
    }
    Ok(ctx.finish())
}

/// Round-trip determinism: serializing a state, deserializing the stream and
/// serializing the result yields the identical byte stream.  Returns the
/// first and the re-serialized stream, which the contract pins to the same
/// canonical bytes.
pub fn serialize_round_trip<S: MonolithicState>(s: &S) -> (r: Result<
    (Vec<u8>, Vec<u8>),
    StateTransferError,
>)
    ensures
        r is Ok <==> s.serializable(),
        r is Ok ==> r->Ok_0.0@ == s.bytes_spec() && r->Ok_0.1@ == s.bytes_spec(),
{
    let first = match s.serialize_state() {
        Ok(v) => v,
        Err(e) => {
            return Err(e);
        },
    };
    proof {
        assert(s.serializable() && s.bytes_spec() == first@);
    }
    let s2 = match S::deserialize_state(first.as_slice()) {
        Ok(v) => v,
        Err(e) => {
            return Err(e);
        },
    };
    let second = match s2.serialize_state() {
        Ok(v) => v,
        Err(e) => {
            return Err(e);
        },
    };
    Ok((first, second))
}

/// Carries a whole monolithic state to the replica that installs it.
pub struct InstallStateMessage<S> where S: MonolithicState {
    state: S,
}

impl<S: MonolithicState> InstallStateMessage<S> {
    /// The carried state.
    pub closed spec fn state_spec(&self) -> S {
        self.state
    }

    /// Wrap a state for installation.
    pub fn new(state: S) -> (r: Self)
        ensures
            r.state_spec() == state,
    {
        InstallStateMessage { state }
    }

    /// Borrow the carried state.
    pub fn state(&self) -> (r: &S)
        ensures
            *r == self.state_spec(),
    {
        &self.state
    }

    /// Take the carried state.
    pub fn into_state(self) -> (r: S)
        ensures
            r == self.state_spec(),
    {
        self.state
    }
}

/// Emitted when the execution module completes a checkpoint: the whole state
/// tagged with the checkpoint's sequence number, for the state-transfer
/// protocol to serve other replicas.
pub struct AppStateMessage<S> where S: MonolithicState {
    seq: SeqNo,
    state: S,
}

impl<S: MonolithicState> AppStateMessage<S> {
    /// The checkpoint's sequence number.
    pub closed spec fn seq_spec(&self) -> SeqNo {
        self.seq
    }

    /// The carried state.
    pub closed spec fn state_spec(&self) -> S {
        self.state
    }

    /// Pair a checkpoint's state with its sequence number.
    pub fn new(seq: SeqNo, state: S) -> (r: Self)
        ensures
            r.seq_spec() == seq,
            r.state_spec() == state,
    {
        AppStateMessage { seq, state }
    }

    /// The checkpoint's sequence number.
    pub fn seq(&self) -> (r: SeqNo)
        ensures
            r == self.seq_spec(),
    {
        self.seq
    }

    /// Borrow the carried state.
    pub fn state(&self) -> (r: &S)
        ensures
            *r == self.state_spec(),
    {
        &self.state
    }

    /// Take the carried state.
    pub fn into_state(self) -> (r: S)
        ensures
            r == self.state_spec(),
    {
        self.state
    }
}

} // verus!
