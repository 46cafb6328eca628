//! The divisible state family: a state split into independently
//! addressable, hashable, transferable parts.  A descriptor gives the shape
//! of a checkpoint without its payload; parts are shipped in batches,
//! verified against the descriptor before acceptance, and the whole state is
//! finalized only once every referenced part has arrived.

use std::sync::Arc;
use vstd::prelude::*;

use crate::digest::{digest_of, Digest};
use crate::error::StateTransferError;
use crate::maybe_vec::MaybeVec;
use crate::ordering::{Orderable, SeqNo};

verus! {

/// Relies on std's Arc::clone: the returned handle refers to the same
/// allocation, so it carries the very same value.
#[verifier::external_body]
pub fn share<T>(v: &Arc<T>) -> (r: Arc<T>)
    ensures
        r == *v,
{
    Arc::clone(v)
}

/// The identity of a part: an opaque id, the committed digest of the part's
/// payload, and the checkpoint the part belongs to.
pub trait PartId: Sized {
    /// The part's id, unique within one descriptor.
    spec fn id_view(&self) -> Seq<u8>;

    /// The committed digest of the part's payload.
    spec fn content_view(&self) -> Seq<u8>;

    /// The checkpoint the part belongs to.
    spec fn seq_view(&self) -> SeqNo;

    /// The part's id.
    fn id(&self) -> (r: &[u8])
        ensures
            r@ == self.id_view(),
    ;

    /// The committed content description, checked against the payload's
    /// digest before a part is accepted.
    fn content_description(&self) -> (r: &[u8])
        ensures
            r@ == self.content_view(),
    ;

    /// The checkpoint the part belongs to.
    fn seq_no(&self) -> (r: SeqNo)
        ensures
            r == self.seq_view(),
    ;
}

/// A payload-bearing part of a divisible state.
pub trait StatePart: Sized {
    type Descriptor: PartId;

    /// The id of the part, as committed in its descriptor.
    spec fn id_view(&self) -> Seq<u8>;

    /// The content description committed in the part's descriptor.
    spec fn content_view(&self) -> Seq<u8>;

    /// The checkpoint the part belongs to.
    spec fn seq_view(&self) -> SeqNo;

    /// The part's payload bytes.
    spec fn bytes_view(&self) -> Seq<u8>;

    /// The part's own description.
    fn descriptor(&self) -> (r: &Self::Descriptor)
        ensures
            r.id_view() == self.id_view(),
            r.content_view() == self.content_view(),
            r.seq_view() == self.seq_view(),
    ;

    /// The digest of the part's payload: a deterministic function of the
    /// bytes alone.
    fn hash(&self) -> (r: Digest)
        ensures
            r@ == digest_of(self.bytes_view()),
    ;

    /// The part's id.
    fn id(&self) -> (r: &[u8])
        ensures
            r@ == self.id_view(),
    ;

    /// The payload's length in bytes.
    fn length(&self) -> (r: usize)
        ensures
            r == self.bytes_view().len(),
    ;

    /// The payload's logical size.
    fn size(&self) -> (r: u64)
        ensures
            r == self.bytes_view().len(),
    ;

    /// The payload.
    fn bytes(&self) -> (r: &[u8])
        ensures
            r@ == self.bytes_view(),
    ;
}

/// Part ids are pairwise distinct.
pub open spec fn unique_ids<P: PartId>(parts: Seq<Arc<P>>) -> bool {
    forall|i: int, j: int|
        0 <= i < j < parts.len() ==> (#[trigger] parts[i]).id_view() != (
        #[trigger] parts[j]).id_view()
}

/// A part is valid for a transfer at `seq` iff the digest of its payload
/// matches the content description committed in its descriptor, and it
/// belongs to that checkpoint.
pub open spec fn part_valid<P: StatePart>(p: P, seq: SeqNo) -> bool {
    digest_of(p.bytes_view()) == p.content_view() && p.seq_view() == seq
}

/// A batch of parts as a map from part id to payload, later entries
/// overriding earlier ones.
pub open spec fn batch_map<P: StatePart>(parts: Seq<P>) -> Map<Seq<u8>, Seq<u8>>
    decreases parts.len(),
{
    if parts.len() == 0 {
        Map::empty()
    } else {
        batch_map(parts.drop_last()).insert(parts.last().id_view(), parts.last().bytes_view())
    }
}

/// Payload-bearing parts with pairwise-distinct ids.
pub open spec fn unique_part_ids<P: StatePart>(parts: Seq<P>) -> bool {
    forall|i: int, j: int|
        0 <= i < j < parts.len() ==> (#[trigger] parts[i]).id_view() != (
        #[trigger] parts[j]).id_view()
}

/// Every part of the sequence is valid for a transfer at `seq`.
pub open spec fn parts_all_valid<P: StatePart>(parts: Seq<P>, seq: SeqNo) -> bool {
    forall|i: int| 0 <= i < parts.len() ==> part_valid(#[trigger] parts[i], seq)
}

/// Appending a part updates the batch map at exactly its id.
pub proof fn lemma_batch_map_push<P: StatePart>(parts: Seq<P>, p: P)
    ensures
        batch_map(parts.push(p)) == batch_map(parts).insert(p.id_view(), p.bytes_view()),
{
    assert(parts.push(p).drop_last() =~= parts);
    assert(parts.push(p).last() == p);
}

/// In a batch with pairwise-distinct ids, each part's id maps to exactly its
/// payload.
pub proof fn lemma_batch_map_index<P: StatePart>(parts: Seq<P>, i: int)
    requires
        0 <= i < parts.len(),
        unique_part_ids(parts),
    ensures
        batch_map(parts).contains_key(parts[i].id_view()),
        batch_map(parts)[parts[i].id_view()] == parts[i].bytes_view(),
    decreases parts.len(),
{
    if i == parts.len() - 1 {
        assert(parts.last() == parts[i]);
    } else {
        let rest = parts.drop_last();
        assert(rest[i] == parts[i]);
        assert forall|a: int, b: int| 0 <= a < b < rest.len() implies (#[trigger] rest[a]).id_view()
            != (#[trigger] rest[b]).id_view() by {
            assert(rest[a] == parts[a] && rest[b] == parts[b]);
        }
        lemma_batch_map_index(rest, i);
        assert(parts.last() == parts[parts.len() - 1]);
        assert(parts[parts.len() - 1].id_view() != parts[i].id_view());
    }
}

/// Every id in a batch's map comes from some part of the batch.
pub proof fn lemma_batch_map_domain<P: StatePart>(parts: Seq<P>, id: Seq<u8>)
    requires
        batch_map(parts).contains_key(id),
    ensures
        exists|i: int| 0 <= i < parts.len() && (#[trigger] parts[i]).id_view() == id,
    decreases parts.len(),
{
    if parts.len() > 0 {
        if parts.last().id_view() == id {
            assert(parts[parts.len() - 1].id_view() == id);
        } else {
            lemma_batch_map_domain(parts.drop_last(), id);
            let j = choose|j: int|
                0 <= j < parts.drop_last().len() && (#[trigger] parts.drop_last()[j]).id_view()
                    == id;
            assert(parts[j].id_view() == id);
        }
    }
}

/// Replacing the one part that carries an id updates the batch map at
/// exactly that id.
pub proof fn lemma_batch_map_update<P: StatePart>(parts: Seq<P>, idx: int, p: P)
    requires
        0 <= idx < parts.len(),
        unique_part_ids(parts),
        p.id_view() == parts[idx].id_view(),
    ensures
        batch_map(parts.update(idx, p)) == batch_map(parts).insert(p.id_view(), p.bytes_view()),
    decreases parts.len(),
{
    let updated = parts.update(idx, p);
    if idx == parts.len() - 1 {
        assert(updated.drop_last() =~= parts.drop_last());
        assert(updated.last() == p);
        assert(parts.last() == parts[idx]);
        assert(batch_map(parts.drop_last()).insert(parts.last().id_view(), parts.last().bytes_view()).insert(
            p.id_view(),
            p.bytes_view(),
        ) =~= batch_map(parts.drop_last()).insert(p.id_view(), p.bytes_view()));
    } else {
        let rest = parts.drop_last();
        assert(updated.drop_last() =~= rest.update(idx, p));
        assert(updated.last() == parts.last());
        assert(rest[idx] == parts[idx]);
        assert forall|a: int, b: int| 0 <= a < b < rest.len() implies (#[trigger] rest[a]).id_view()
            != (#[trigger] rest[b]).id_view() by {
            assert(rest[a] == parts[a] && rest[b] == parts[b]);
        }
        lemma_batch_map_update(rest, idx, p);
        assert(parts.last() == parts[parts.len() - 1]);
        assert(parts[parts.len() - 1].id_view() != parts[idx].id_view());
        assert(batch_map(rest).insert(p.id_view(), p.bytes_view()).insert(
            parts.last().id_view(),
            parts.last().bytes_view(),
        ) =~= batch_map(rest).insert(parts.last().id_view(), parts.last().bytes_view()).insert(
            p.id_view(),
            p.bytes_view(),
        ));
    }
}

/// The shape of a checkpoint without its payload: an ordered collection of
/// shared part descriptions plus an optional whole-state digest, used as a
/// cheap equality oracle between two replicas' snapshots.
pub trait DivisibleStateDescriptor: Sized + Orderable {
    type Part: PartId;

    /// The part descriptions, in descriptor order.
    spec fn parts_view(&self) -> Seq<Arc<Self::Part>>;

    /// The optional whole-state digest.
    spec fn digest_view(&self) -> Option<Seq<u8>>;

    /// All the parts of the state, under shared ownership so that many
    /// transfer tasks can read them without copying.
    fn parts(&self) -> (r: Vec<Arc<Self::Part>>)
        ensures
            r@ == self.parts_view(),
    ;

    /// The whole-state digest, if one was committed.
    fn get_digest(&self) -> (r: Option<Digest>)
        ensures
            r is Some <==> self.digest_view() is Some,
            r is Some ==> r->Some_0@ == self.digest_view()->Some_0,
    ;
}

/// A well-formed descriptor: part ids are unique within it, and every part
/// it references belongs to the descriptor's checkpoint.
pub open spec fn descriptor_wf<D: DivisibleStateDescriptor>(d: D) -> bool {
    unique_ids(d.parts_view()) && forall|i: int|
        0 <= i < d.parts_view().len() ==> (#[trigger] d.parts_view()[i]).seq_view() == d.seq_spec()
}

/// Every part the target descriptor references was accepted with matching
/// content.
pub open spec fn covers<D: DivisibleStateDescriptor>(
    accepted: Map<Seq<u8>, Seq<u8>>,
    target: D,
) -> bool {
    forall|i: int|
        0 <= i < target.parts_view().len() ==> {
            let pd = (#[trigger] target.parts_view()[i]);
            accepted.contains_key(pd.id_view()) && digest_of(accepted[pd.id_view()])
                == pd.content_view()
        }
}

/// The committed contents after installing `target` from `accepted`:
/// exactly the parts the descriptor references, with the payloads that were
/// accepted for them.
pub open spec fn installed_map<D: DivisibleStateDescriptor>(
    accepted: Map<Seq<u8>, Seq<u8>>,
    target: D,
) -> Map<Seq<u8>, Seq<u8>> {
    Map::new(
        |id: Seq<u8>|
            exists|i: int|
                0 <= i < target.parts_view().len() && (#[trigger] target.parts_view()[i]).id_view()
                    == id,
        |id: Seq<u8>| accepted[id],
    )
}

/// The descriptor describes exactly the given contents: each referenced
/// part is committed with matching content digest, and every committed part
/// is referenced.
pub open spec fn descriptor_matches<D: DivisibleStateDescriptor>(
    d: D,
    committed: Map<Seq<u8>, Seq<u8>>,
) -> bool {
    &&& forall|i: int|
        0 <= i < d.parts_view().len() ==> {
            let pd = (#[trigger] d.parts_view()[i]);
            committed.contains_key(pd.id_view()) && pd.content_view() == digest_of(
                committed[pd.id_view()],
            )
        }
    &&& forall|id: Seq<u8>| #[trigger]
        committed.contains_key(id) ==> exists|i: int|
            0 <= i < d.parts_view().len() && (#[trigger] d.parts_view()[i]).id_view() == id
}

/// A divisible state: exclusively owns the live state, produces snapshot
/// descriptors and parts for serving other replicas, and is mutated only
/// through the accept/finalize contract during an install.
pub trait DivisibleState: Sized {
    type PartDescription: PartId;

    type StateDescriptor: DivisibleStateDescriptor;

    type StatePart: StatePart;

    /// Well-formedness: constructors establish it and every operation
    /// preserves it.
    spec fn inv(&self) -> bool;

    /// Id -> payload of the committed parts.
    spec fn committed_map(&self) -> Map<Seq<u8>, Seq<u8>>;

    /// Id -> payload of the parts accepted for the in-progress transfer.
    spec fn accepted_map(&self) -> Map<Seq<u8>, Seq<u8>>;

    /// The descriptor the in-progress transfer must satisfy, if one is
    /// active.
    spec fn target_spec(&self) -> Option<Self::StateDescriptor>;

    /// The sequence number of the committed state, once initialized.
    spec fn seq_spec(&self) -> Option<SeqNo>;

    /// A snapshot descriptor of the currently committed state.
    fn get_descriptor(&self) -> (r: Self::StateDescriptor)
        requires
            self.inv(),
        ensures
            descriptor_wf(r),
            descriptor_matches(r, self.committed_map()),
            self.seq_spec() is Some ==> r.seq_spec() == self.seq_spec()->Some_0,
    ;

    /// Begin installing the checkpoint that `target` describes.  Parts
    /// accepted for any earlier transfer are discarded.
    fn begin_transfer(&mut self, target: Self::StateDescriptor)
        requires
            old(self).inv(),
            descriptor_wf(target),
        ensures
            final(self).inv(),
            final(self).target_spec() == Some(target),
            final(self).accepted_map() == Map::<Seq<u8>, Seq<u8>>::empty(),
            final(self).committed_map() == old(self).committed_map(),
            final(self).seq_spec() == old(self).seq_spec(),
    ;

    /// Accept a batch of parts into the in-progress transfer.  Every part is
    /// verified — its payload digest against its descriptor's content
    /// description, its sequence number against the transfer target —
    /// before anything is recorded; the batch is atomic, so one invalid part
    /// rejects the whole call and leaves the state unchanged.  Re-accepting
    /// an already-accepted, identical part is a no-op.
    fn accept_parts(&mut self, parts: Vec<Self::StatePart>) -> (r: Result<
        (),
        StateTransferError,
    >)
        requires
            old(self).inv(),
        ensures
            final(self).inv(),
            r is Ok <==> (old(self).target_spec() is Some && forall|i: int|
                0 <= i < parts@.len() ==> part_valid(
                    #[trigger] parts@[i],
                    (old(self).target_spec()->Some_0).seq_spec(),
                )),
            r is Ok ==> final(self).accepted_map() == old(self).accepted_map().union_prefer_right(
                batch_map(parts@),
            ) && final(self).committed_map() == old(self).committed_map()
                && final(self).target_spec() == old(self).target_spec()
                && final(self).seq_spec() == old(self).seq_spec(),
            r is Err ==> *final(self) == *old(self),
            r is Err ==> r->Err_0 == StateTransferError::PartVerificationFailed || r->Err_0
                == StateTransferError::SequenceMismatch,
            r is Err && r->Err_0 == StateTransferError::PartVerificationFailed ==> exists|i: int|
                0 <= i < parts@.len() && digest_of((#[trigger] parts@[i]).bytes_view())
                    != parts@[i].content_view(),
            r is Err && r->Err_0 == StateTransferError::SequenceMismatch ==> (old(self).target_spec() is None
                || exists|i: int|
                    0 <= i < parts@.len() && (#[trigger] parts@[i]).seq_view() != (old(self).target_spec()->Some_0).seq_spec()),
    ;

    /// Declare the in-progress transfer complete.  Fails — and changes
    /// nothing — unless every part referenced by the target descriptor has
    /// been accepted and verified; on success the accepted parts become the
    /// committed state of the target's checkpoint.
    fn finalize_transfer(&mut self) -> (r: Result<(), StateTransferError>)
        requires
            old(self).inv(),
        ensures
            final(self).inv(),
            r is Ok <==> (old(self).target_spec() is Some && covers(
                old(self).accepted_map(),
                old(self).target_spec()->Some_0,
            )),
            r is Ok ==> final(self).committed_map() == installed_map(
                old(self).accepted_map(),
                old(self).target_spec()->Some_0,
            ) && final(self).seq_spec() == Some((old(self).target_spec()->Some_0).seq_spec())
                && final(self).target_spec() is None && final(self).accepted_map() == Map::<
                Seq<u8>,
                Seq<u8>,
            >::empty(),
            r is Err ==> *final(self) == *old(self),
            r is Err && old(self).target_spec() is None ==> r->Err_0
                == StateTransferError::StateUnavailable,
            r is Err && old(self).target_spec() is Some ==> r->Err_0
                == StateTransferError::IncompleteState,
    ;

    /// The parts that reconstruct the committed state, for serving other
    /// replicas.
    fn get_parts(&mut self) -> (r: Result<Vec<Self::StatePart>, StateTransferError>)
        requires
            old(self).inv(),
        ensures
            final(self).inv(),
            *final(self) == *old(self),
            r is Ok <==> old(self).seq_spec() is Some,
            r is Ok ==> batch_map(r->Ok_0@) == old(self).committed_map() && forall|i: int|
                0 <= i < r->Ok_0@.len() ==> part_valid(
                    #[trigger] r->Ok_0@[i],
                    old(self).seq_spec()->Some_0,
                ),
            r is Err ==> r->Err_0 == StateTransferError::StateUnavailable,
    ;

    /// The sequence number of the currently committed state; fails while the
    /// state is uninitialized.
    fn get_seqno(&self) -> (r: Result<SeqNo, StateTransferError>)
        requires
            self.inv(),
        ensures
            r is Ok <==> self.seq_spec() is Some,
            r is Ok ==> r->Ok_0 == self.seq_spec()->Some_0,
            r is Err ==> r->Err_0 == StateTransferError::StateUnavailable,
    ;
}

/// Accepting an identical batch twice is a no-op: folding the same batch
/// into the accepted parts a second time leaves them — and therefore the
/// committed state and its digest after finalization — unchanged.
pub proof fn lemma_accept_idempotent<P: StatePart>(
    accepted: Map<Seq<u8>, Seq<u8>>,
    parts: Seq<P>,
)
    ensures
        accepted.union_prefer_right(batch_map(parts)).union_prefer_right(batch_map(parts))
            == accepted.union_prefer_right(batch_map(parts)),
{
    let m = accepted.union_prefer_right(batch_map(parts));
    assert(m.union_prefer_right(batch_map(parts)) =~= m);
}

/// Carries parts of a state — or the signal that none are forthcoming — to
/// the replica that installs them.
pub enum InstallStateMessage<S> where S: DivisibleState {
    /// A batch of parts of the state being installed.
    StatePart(MaybeVec<S::StatePart>),
    /// Installation is complete: normal message processing may resume.
    Done,
}

/// A checkpoint payload emitted by the execution module for the
/// state-transfer protocol.
pub enum AppState<S> where S: DivisibleState {
    /// The shape of the checkpoint, without payload.
    StateDescriptor(S::StateDescriptor),
    /// A batch of the checkpoint's parts.
    StatePart(MaybeVec<S::StatePart>),
    /// The checkpoint has been fully emitted.
    Done,
}

/// The message sent when the execution module completes a checkpoint: a
/// payload portion tagged with the checkpoint's sequence number.
pub struct AppStateMessage<S> where S: DivisibleState {
    seq_no: SeqNo,
    state: AppState<S>,
}

impl<S: DivisibleState> AppStateMessage<S> {
    /// The carried payload portion.
    pub closed spec fn state_spec(&self) -> AppState<S> {
        self.state
    }

    /// Pair a checkpoint payload with its sequence number.
    pub fn new(seq_no: SeqNo, state_portion: AppState<S>) -> (r: Self)
        ensures
            r.seq_spec() == seq_no,
            r.state_spec() == state_portion,
    {
        AppStateMessage { seq_no, state: state_portion }
    }

    /// Exactly the pair the message was built from.
    pub fn into_state(self) -> (r: (SeqNo, AppState<S>))
        ensures
            r.0 == self.seq_spec(),
            r.1 == self.state_spec(),
    {
        (self.seq_no, self.state)
    }
}

impl<S: DivisibleState> Orderable for AppStateMessage<S> {
    closed spec fn seq_spec(&self) -> SeqNo {
        self.seq_no
    }

    fn sequence_number(&self) -> (r: SeqNo) {
        self.seq_no
    }
}

/// Where the install loop stands between messages.
#[derive(Clone, Copy, PartialEq, Eq, Structural, Debug)]
pub enum InstallPhase {
    /// No transfer is being installed.
    Idle,
    /// Part batches are being consumed.
    Receiving,
    /// The state was finalized: normal processing may resume.
    Ready,
    /// Finalization failed: the surrounding protocol decides whether to
    /// restart the transfer.
    Failed,
}

/// Drive the install state machine one message forward.  A part batch is
/// accepted into the in-progress transfer and moves the machine to
/// `Receiving`; `Done` finalizes and moves it to `Ready`.  A failed batch
/// leaves the phase unchanged — the orchestrator may re-request the parts —
/// while a failed finalization parks the machine in `Failed`.
pub fn install_step<S: DivisibleState>(
    state: &mut S,
    phase: InstallPhase,
    message: InstallStateMessage<S>,
) -> (r: (InstallPhase, Result<(), StateTransferError>))
    requires
        old(state).inv(),
    ensures
        final(state).inv(),
        message is Done ==> {
            &&& (r.1 is Ok <==> (old(state).target_spec() is Some && covers(
                old(state).accepted_map(),
                old(state).target_spec()->Some_0,
            )))
            &&& (r.1 is Ok ==> r.0 is Ready && final(state).committed_map() == installed_map(
                old(state).accepted_map(),
                old(state).target_spec()->Some_0,
            ) && final(state).seq_spec() == Some((old(state).target_spec()->Some_0).seq_spec()))
            &&& (r.1 is Err ==> r.0 is Failed && *final(state) == *old(state))
        },
        message matches InstallStateMessage::StatePart(mv) ==> {
            &&& (r.1 is Ok <==> (old(state).target_spec() is Some && forall|i: int|
                0 <= i < mv@.len() ==> part_valid(
                    #[trigger] mv@[i],
                    (old(state).target_spec()->Some_0).seq_spec(),
                )))
            &&& (r.1 is Ok ==> r.0 is Receiving && final(state).accepted_map()
                == old(state).accepted_map().union_prefer_right(batch_map(mv@)))
            &&& (r.1 is Err ==> r.0 == phase && *final(state) == *old(state))
        },
{
    match message {
        InstallStateMessage::StatePart(mv) => {
            let parts = mv.into_vec();
            match state.accept_parts(parts) {
                Ok(()) => (InstallPhase::Receiving, Ok(())),
                Err(e) => (phase, Err(e)),
            }
        },
        InstallStateMessage::Done => {
            match state.finalize_transfer() {
                Ok(()) => (InstallPhase::Ready, Ok(())),
                Err(e) => (InstallPhase::Failed, Err(e)),
            }
        },
    }
}

} // verus!
