//! A concrete divisible state held in memory: the committed checkpoint is a
//! collection of verified parts, an install runs through the
//! begin/accept/finalize contract, and descriptors are produced on demand
//! for serving other replicas.

use std::sync::Arc;
use vstd::prelude::*;

use crate::digest::{bytes_equal, copy_bytes, digest, digest_of, Context, Digest};
use crate::divisible_state::{
    batch_map, covers, descriptor_wf, installed_map, lemma_batch_map_domain,
    lemma_batch_map_index, lemma_batch_map_push, lemma_batch_map_update, part_valid,
    parts_all_valid, share, unique_ids, unique_part_ids, DivisibleState,
    DivisibleStateDescriptor, PartId, StatePart,
};
use crate::error::StateTransferError;
use crate::ordering::{Orderable, SeqNo};

verus! {

/// The identity of one part: an opaque id, the committed digest of the
/// part's payload, and the checkpoint it belongs to.
pub struct PartDescription {
    id: Vec<u8>,
    content_description: Vec<u8>,
    seq_no: SeqNo,
}

impl PartDescription {
    /// Describe a part by its id, the digest committed for its payload, and
    /// its checkpoint.
    pub fn new(id: Vec<u8>, content_description: Vec<u8>, seq_no: SeqNo) -> (r: Self)
        ensures
            r.id_view() == id@,
            r.content_view() == content_description@,
            r.seq_view() == seq_no,
    {
        PartDescription { id, content_description, seq_no }
    }
}

impl PartId for PartDescription {
    closed spec fn id_view(&self) -> Seq<u8> {
        self.id@
    }

    closed spec fn content_view(&self) -> Seq<u8> {
        self.content_description@
    }

    closed spec fn seq_view(&self) -> SeqNo {
        self.seq_no
    }

    fn id(&self) -> (r: &[u8]) {
        self.id.as_slice()
    }

    fn content_description(&self) -> (r: &[u8]) {
        self.content_description.as_slice()
    }

    fn seq_no(&self) -> (r: SeqNo) {
        self.seq_no
    }
}

/// One payload-bearing part of a state.
pub struct StatePartData {
    descriptor: PartDescription,
    bytes: Vec<u8>,
}

impl StatePartData {
    /// A part carrying the given payload under the given description.
    pub fn new(descriptor: PartDescription, bytes: Vec<u8>) -> (r: Self)
        ensures
            r.id_view() == descriptor.id_view(),
            r.content_view() == descriptor.content_view(),
            r.seq_view() == descriptor.seq_view(),
            r.bytes_view() == bytes@,
    {
        StatePartData { descriptor, bytes }
    }

    /// An owned copy carrying the same identity and payload.
    pub fn duplicate(&self) -> (r: Self)
        ensures
            r.id_view() == self.id_view(),
            r.content_view() == self.content_view(),
            r.seq_view() == self.seq_view(),
            r.bytes_view() == self.bytes_view(),
    {
        StatePartData {
            descriptor: PartDescription {
                id: copy_bytes(self.descriptor.id.as_slice()),
                content_description: copy_bytes(self.descriptor.content_description.as_slice()),
                seq_no: self.descriptor.seq_no,
            },
            bytes: copy_bytes(self.bytes.as_slice()),
        }
    }
}

impl StatePart for StatePartData {
    type Descriptor = PartDescription;

    closed spec fn id_view(&self) -> Seq<u8> {
        self.descriptor.id@
    }

    closed spec fn content_view(&self) -> Seq<u8> {
        self.descriptor.content_description@
    }

    closed spec fn seq_view(&self) -> SeqNo {
        self.descriptor.seq_no
    }

    closed spec fn bytes_view(&self) -> Seq<u8> {
        self.bytes@
    }

    fn descriptor(&self) -> (r: &PartDescription) {
        &self.descriptor
    }

    fn hash(&self) -> (r: Digest) {
        digest(self.bytes.as_slice())
    }

    fn id(&self) -> (r: &[u8]) {
        self.descriptor.id.as_slice()
    }

    fn length(&self) -> (r: usize) {
        self.bytes.len()
    }

    fn size(&self) -> (r: u64) {
        self.bytes.len() as u64
    }

    fn bytes(&self) -> (r: &[u8]) {
        self.bytes.as_slice()
    }
}

/// The shape of one checkpoint of a [`PartedState`]: shared part
/// descriptions plus an optional whole-state digest.
pub struct StateDescriptor {
    seq_no: SeqNo,
    parts: Vec<Arc<PartDescription>>,
    state_digest: Option<Digest>,
}

impl StateDescriptor {
    /// Build a descriptor, checking the descriptor invariants: part ids
    /// must be unique within it and every part must belong to its
    /// checkpoint.  A duplicated id is reported as a verification failure,
    /// a foreign part as a sequence mismatch.
    pub fn new(seq_no: SeqNo, parts: Vec<Arc<PartDescription>>, state_digest: Option<Digest>) -> (r:
        Result<StateDescriptor, StateTransferError>)
        ensures
            r is Ok <==> (unique_ids(parts@) && forall|i: int|
                0 <= i < parts@.len() ==> (#[trigger] parts@[i]).seq_view() == seq_no),
            r is Ok ==> (r->Ok_0).parts_view() == parts@ && (r->Ok_0).seq_spec() == seq_no
                && descriptor_wf(r->Ok_0) && ((r->Ok_0).digest_view() is Some <==> state_digest is Some)
                && (state_digest is Some ==> (r->Ok_0).digest_view()->Some_0
                == state_digest->Some_0@),
            r is Err ==> r->Err_0 == StateTransferError::SequenceMismatch || r->Err_0
                == StateTransferError::PartVerificationFailed,
    {
        let mut i: usize = 0;
        while i < parts.len()
            invariant
                i <= parts@.len(),
                forall|j: int| 0 <= j < i ==> (#[trigger] parts@[j]).seq_view() == seq_no,
            decreases parts@.len() - i,
        {
            if parts[i].seq_no != seq_no {
                return Err(StateTransferError::SequenceMismatch);
            }
            i += 1;
        }
        let mut i: usize = 0;
        while i < parts.len()
            invariant
                i <= parts@.len(),
                forall|a: int, b: int|
                    0 <= a < b < i ==> (#[trigger] parts@[a]).id_view() != (
                    #[trigger] parts@[b]).id_view(),
            decreases parts@.len() - i,
        {
            let mut j: usize = 0;
            while j < i
                invariant
                    j <= i < parts@.len(),
                    forall|k: int|
                        0 <= k < j ==> (#[trigger] parts@[k]).id_view() != parts@[i as int].id_view(),
                decreases i - j,
            {
                if bytes_equal(parts[j].id.as_slice(), parts[i].id.as_slice()) {
                    proof {
                        assert(parts@[j as int].id_view() == parts@[i as int].id_view());
                        assert(!unique_ids(parts@));
                    }
                    return Err(StateTransferError::PartVerificationFailed);
                }
                j += 1;
            }
            i += 1;
        }
        Ok(StateDescriptor { seq_no, parts, state_digest })
    }

    /// Value equality for convergence checks: two descriptors are equal
    /// when they carry the same sequence number, the same parts in the same
    /// order, and the same committed whole-state digest.  Two replicas that
    /// snapshot the same state at the same checkpoint produce equal
    /// descriptors.
    #[verifier::loop_isolation(false)]
    pub fn equals(&self, other: &StateDescriptor) -> (r: bool)
        ensures
            r == (self.seq_spec() == other.seq_spec() && self.parts_view().len()
                == other.parts_view().len() && (forall|i: int|
                0 <= i < self.parts_view().len() ==> {
                    let a = (#[trigger] self.parts_view()[i]);
                    let b = other.parts_view()[i];
                    a.id_view() == b.id_view() && a.content_view() == b.content_view()
                        && a.seq_view() == b.seq_view()
                }) && self.digest_view() == other.digest_view()),
    {
        if self.seq_no != other.seq_no {
            return false;
        }
        if self.parts.len() != other.parts.len() {
            return false;
        }
        let mut i: usize = 0;
        while i < self.parts.len()
            invariant
                i <= self.parts@.len(),
                forall|j: int|
                    0 <= j < i ==> {
                        let a = (#[trigger] self.parts_view()[j]);
                        let b = other.parts_view()[j];
                        a.id_view() == b.id_view() && a.content_view() == b.content_view()
                            && a.seq_view() == b.seq_view()
                    },
            decreases self.parts@.len() - i,
        {
            if !bytes_equal(self.parts[i].id.as_slice(), other.parts[i].id.as_slice()) {
                return false;
            }
            if !bytes_equal(
                self.parts[i].content_description.as_slice(),
                other.parts[i].content_description.as_slice(),
            ) {
                return false;
            }
            if self.parts[i].seq_no != other.parts[i].seq_no {
                return false;
            }
            i += 1;
        }
        match (&self.state_digest, &other.state_digest) {
            (None, None) => true,
            (Some(a), Some(b)) => a.equals(b),
            _ => false,
        }
    }
}

impl Orderable for StateDescriptor {
    closed spec fn seq_spec(&self) -> SeqNo {
        self.seq_no
    }

    fn sequence_number(&self) -> (r: SeqNo) {
        self.seq_no
    }
}

impl DivisibleStateDescriptor for StateDescriptor {
    type Part = PartDescription;

    closed spec fn parts_view(&self) -> Seq<Arc<PartDescription>> {
        self.parts@
    }

    closed spec fn digest_view(&self) -> Option<Seq<u8>> {
        match self.state_digest {
            Some(d) => Some(d@),
            None => None,
        }
    }

    fn parts(&self) -> (r: Vec<Arc<PartDescription>>) {
        let mut out: Vec<Arc<PartDescription>> = Vec::new();
        let mut i: usize = 0;
        while i < self.parts.len()
            invariant
                i <= self.parts@.len(),
                out@ == self.parts@.take(i as int),
            decreases self.parts@.len() - i,
        {
            out.push(share(&self.parts[i]));
            proof {
                assert(out@ =~= self.parts@.take(i + 1 as int));
            }
            i += 1;
        }
        proof {
            assert(self.parts@.take(self.parts@.len() as int) =~= self.parts@);
        }
        out
    }

    fn get_digest(&self) -> (r: Option<Digest>) {
        match &self.state_digest {
            Some(d) => Some(d.duplicate()),
            None => None,
        }
    }
}

/// Find the index of the stored part carrying `id`, if any.
fn find_by_id(v: &Vec<StatePartData>, id: &[u8]) -> (r: Option<usize>)
    ensures
        r is Some ==> r->Some_0 < v@.len() && v@[r->Some_0 as int].id_view() == id@,
        r is None ==> forall|j: int| 0 <= j < v@.len() ==> (#[trigger] v@[j]).id_view() != id@,
{
    let mut j: usize = 0;
    while j < v.len()
        invariant
            j <= v@.len(),
            forall|k: int| 0 <= k < j ==> (#[trigger] v@[k]).id_view() != id@,
        decreases v@.len() - j,
    {
        if bytes_equal(v[j].descriptor.id.as_slice(), id) {
            return Some(j);
        }
        j += 1;
    }
    None
}

/// An in-memory divisible state: the committed parts of one checkpoint,
/// plus the target descriptor and the verified parts of an in-progress
/// transfer.
pub struct PartedState {
    initialized: bool,
    seq_no: SeqNo,
    committed: Vec<StatePartData>,
    target: Option<StateDescriptor>,
    accepted: Vec<StatePartData>,
}

impl PartedState {
    /// A fresh state: nothing committed yet, no transfer in progress.
    pub fn new() -> (r: PartedState)
        ensures
            r.inv(),
            r.seq_spec() is None,
            r.target_spec() is None,
            r.committed_map() == Map::<Seq<u8>, Seq<u8>>::empty(),
            r.accepted_map() == Map::<Seq<u8>, Seq<u8>>::empty(),
    {
        let r = PartedState {
            initialized: false,
            seq_no: SeqNo(0),
            committed: Vec::new(),
            target: None,
            accepted: Vec::new(),
        };
        proof {
            assert(r.committed@ =~= Seq::<StatePartData>::empty());
            assert(r.accepted@ =~= Seq::<StatePartData>::empty());
        }
        r
    }
}

impl DivisibleState for PartedState {
    type PartDescription = PartDescription;

    type StateDescriptor = StateDescriptor;

    type StatePart = StatePartData;

    closed spec fn inv(&self) -> bool {
        &&& unique_part_ids(self.committed@)
        &&& unique_part_ids(self.accepted@)
        &&& (!self.initialized ==> self.committed@.len() == 0)
        &&& parts_all_valid(self.committed@, self.seq_no)
        &&& (self.target is Some ==> descriptor_wf(self.target->Some_0) && parts_all_valid(
            self.accepted@,
            (self.target->Some_0).seq_spec(),
        ))
        &&& (self.target is None ==> self.accepted@.len() == 0)
    }

    closed spec fn committed_map(&self) -> Map<Seq<u8>, Seq<u8>> {
        batch_map(self.committed@)
    }

    closed spec fn accepted_map(&self) -> Map<Seq<u8>, Seq<u8>> {
        batch_map(self.accepted@)
    }

    closed spec fn target_spec(&self) -> Option<StateDescriptor> {
        self.target
    }

    closed spec fn seq_spec(&self) -> Option<SeqNo> {
        if self.initialized {
            Some(self.seq_no)
        } else {
            None
        }
    }

    #[verifier::loop_isolation(false)]
    fn get_descriptor(&self) -> (r: StateDescriptor) {
        let mut pds: Vec<Arc<PartDescription>> = Vec::new();
        let mut i: usize = 0;
        while i < self.committed.len()
            invariant
                i <= self.committed@.len(),
                pds@.len() == i,
                forall|j: int|
                    0 <= j < i ==> (#[trigger] pds@[j]).id_view() == self.committed@[j].id_view()
                        && pds@[j].content_view() == self.committed@[j].content_view()
                        && pds@[j].seq_view() == self.seq_no,
            decreases self.committed@.len() - i,
        {
            let p = &self.committed[i];
            let pd = PartDescription {
                id: copy_bytes(p.descriptor.id.as_slice()),
                content_description: copy_bytes(p.descriptor.content_description.as_slice()),
                seq_no: self.seq_no,
            };
            pds.push(Arc::new(pd));
            i += 1;
        }
        let mut ctx = Context::new();
        let mut k: usize = 0;
        while k < self.committed.len()
            invariant
                k <= self.committed@.len(),
            decreases self.committed@.len() - k,
        {
            ctx.update(self.committed[k].bytes.as_slice());
            k += 1;
        }
        let d = StateDescriptor {
            seq_no: self.seq_no,
            parts: pds,
            state_digest: Some(ctx.finish()),
        };
        proof {
            assert forall|a: int, b: int| 0 <= a < b < d.parts_view().len() implies (
            #[trigger] d.parts_view()[a]).id_view() != (#[trigger] d.parts_view()[b]).id_view() by {
                assert(self.committed@[a].id_view() != self.committed@[b].id_view());
            }
            assert forall|j: int| 0 <= j < d.parts_view().len() implies {
                let pd = (#[trigger] d.parts_view()[j]);
                self.committed_map().contains_key(pd.id_view()) && pd.content_view() == digest_of(
                    self.committed_map()[pd.id_view()],
                )
            } by {
                lemma_batch_map_index(self.committed@, j);
                assert(part_valid(self.committed@[j], self.seq_no));
            }
            assert forall|id: Seq<u8>| #[trigger]
                self.committed_map().contains_key(id) implies exists|j: int|
                0 <= j < d.parts_view().len() && (#[trigger] d.parts_view()[j]).id_view() == id by {
                lemma_batch_map_domain(self.committed@, id);
                let j = choose|j: int|
                    0 <= j < self.committed@.len() && (#[trigger] self.committed@[j]).id_view()
                        == id;
                assert(d.parts_view()[j].id_view() == id);
            }
        }
        d
    }

    fn begin_transfer(&mut self, target: StateDescriptor) {
        self.target = Some(target);
        self.accepted = Vec::new();
        proof {
            assert(self.accepted@ =~= Seq::<StatePartData>::empty());
        }
    }

    #[verifier::loop_isolation(false)]
    fn accept_parts(&mut self, parts: Vec<StatePartData>) -> (r: Result<(), StateTransferError>) {
        let tseq = match &self.target {
            None => {
                return Err(StateTransferError::SequenceMismatch);
            },
            Some(t) => t.seq_no,
        };
        let mut i: usize = 0;
        while i < parts.len()
            invariant
                i <= parts@.len(),
                forall|j: int| 0 <= j < i ==> part_valid(#[trigger] parts@[j], tseq),
            decreases parts@.len() - i,
        {
            let d = digest(parts[i].bytes.as_slice());
            if !bytes_equal(d.as_bytes(), parts[i].descriptor.content_description.as_slice()) {
                return Err(StateTransferError::PartVerificationFailed);
            }
            if parts[i].descriptor.seq_no != tseq {
                return Err(StateTransferError::SequenceMismatch);
            }
            i += 1;
        }
        let ghost old_accepted = self.accepted@;
        proof {
            assert(parts@.take(0) =~= Seq::<StatePartData>::empty());
            assert(batch_map(old_accepted).union_prefer_right(batch_map(parts@.take(0))) =~= batch_map(
                old_accepted,
            ));
        }
        let mut i: usize = 0;
        while i < parts.len()
            invariant
                i <= parts@.len(),
                self.initialized == old(self).initialized,
                self.seq_no == old(self).seq_no,
                self.committed == old(self).committed,
                self.target == old(self).target,
                batch_map(self.accepted@) == batch_map(old_accepted).union_prefer_right(
                    batch_map(parts@.take(i as int)),
                ),
                unique_part_ids(self.accepted@),
                parts_all_valid(self.accepted@, tseq),
            decreases parts@.len() - i,
        {
            let p = parts[i].duplicate();
            let ghost pre = self.accepted@;
            let ghost key = parts@[i as int].id_view();
            let ghost val = parts@[i as int].bytes_view();
            match find_by_id(&self.accepted, parts[i].descriptor.id.as_slice()) {
                Some(idx) => {
                    self.accepted[idx] = p;
                    proof {
                        lemma_batch_map_update(pre, idx as int, self.accepted@[idx as int]);
                        assert forall|a: int, b: int|
                            0 <= a < b < self.accepted@.len() implies (
                        #[trigger] self.accepted@[a]).id_view() != (
                        #[trigger] self.accepted@[b]).id_view() by {
                            assert(pre[a].id_view() != pre[b].id_view());
                            assert(self.accepted@[a].id_view() == pre[a].id_view());
                            assert(self.accepted@[b].id_view() == pre[b].id_view());
                        }
                    }
                },
                None => {
                    self.accepted.push(p);
                    proof {
                        lemma_batch_map_push(pre, self.accepted@[pre.len() as int]);
                        assert forall|a: int, b: int|
                            0 <= a < b < self.accepted@.len() implies (
                        #[trigger] self.accepted@[a]).id_view() != (
                        #[trigger] self.accepted@[b]).id_view() by {
                            if b < pre.len() {
                                assert(pre[a].id_view() != pre[b].id_view());
                            } else {
                                assert(pre[a].id_view() != key);
                            }
                        }
                    }
                },
            }
            proof {
                let t1 = parts@.take(i as int + 1);
                assert(t1.drop_last() =~= parts@.take(i as int));
                assert(t1.last() == parts@[i as int]);
                assert(batch_map(old_accepted).union_prefer_right(
                    batch_map(parts@.take(i as int)).insert(key, val),
                ) =~= batch_map(old_accepted).union_prefer_right(
                    batch_map(parts@.take(i as int)),
                ).insert(key, val));
            }
            i += 1;
        }
        proof {
            assert(parts@.take(parts@.len() as int) =~= parts@);
        }
        Ok(())
    }

    #[verifier::loop_isolation(false)]
    fn finalize_transfer(&mut self) -> (r: Result<(), StateTransferError>) {
        let mut new_committed: Vec<StatePartData> = Vec::new();
        let new_seq: SeqNo;
        match &self.target {
            None => {
                return Err(StateTransferError::StateUnavailable);
            },
            Some(t) => {
                let ghost tv = *t;
                proof {
                    assert(tv == old(self).target_spec()->Some_0);
                }
                let mut i: usize = 0;
                while i < t.parts.len()
                    invariant
                        i <= tv.parts_view().len(),
                        new_committed@.len() == i,
                        forall|j: int|
                            0 <= j < i ==> {
                                let pd = (#[trigger] tv.parts_view()[j]);
                                batch_map(self.accepted@).contains_key(pd.id_view()) && digest_of(
                                    batch_map(self.accepted@)[pd.id_view()],
                                ) == pd.content_view()
                            },
                        forall|j: int|
                            0 <= j < i ==> (#[trigger] new_committed@[j]).id_view()
                                == tv.parts_view()[j].id_view() && new_committed@[j].bytes_view()
                                == batch_map(self.accepted@)[tv.parts_view()[j].id_view()]
                                && part_valid(new_committed@[j], tv.seq_spec()),
                    decreases tv.parts_view().len() - i,
                {
                    match find_by_id(&self.accepted, t.parts[i].id.as_slice()) {
                        None => {
                            proof {
                                let pd_id = tv.parts_view()[i as int].id_view();
                                if batch_map(self.accepted@).contains_key(pd_id) {
                                    lemma_batch_map_domain(self.accepted@, pd_id);
                                    let k = choose|k: int|
                                        0 <= k < self.accepted@.len() && (
                                        #[trigger] self.accepted@[k]).id_view() == pd_id;
                                    assert(false);
                                }
                                assert(!covers(batch_map(self.accepted@), tv));
                            }
                            return Err(StateTransferError::IncompleteState);
                        },
                        Some(idx) => {
                            if !bytes_equal(
                                self.accepted[idx].descriptor.content_description.as_slice(),
                                t.parts[i].content_description.as_slice(),
                            ) {
                                proof {
                                    lemma_batch_map_index(self.accepted@, idx as int);
                                    assert(part_valid(
                                        self.accepted@[idx as int],
                                        tv.seq_spec(),
                                    ));
                                    assert(!covers(batch_map(self.accepted@), tv));
                                }
                                return Err(StateTransferError::IncompleteState);
                            }
                            new_committed.push(self.accepted[idx].duplicate());
                            proof {
                                lemma_batch_map_index(self.accepted@, idx as int);
                                assert(part_valid(self.accepted@[idx as int], tv.seq_spec()));
                            }
                        },
                    }
                    i += 1;
                }
                new_seq = t.sequence_number();
                proof {
                    assert(covers(batch_map(self.accepted@), tv));
                }
            },
        }
        self.committed = new_committed;
        self.seq_no = new_seq;
        self.initialized = true;
        self.target = None;
        self.accepted = Vec::new();
        proof {
            let t = old(self).target_spec()->Some_0;
            let acc = old(self).accepted_map();
            assert(self.accepted@ =~= Seq::<StatePartData>::empty());
            assert forall|a: int, b: int|
                0 <= a < b < self.committed@.len() implies (
            #[trigger] self.committed@[a]).id_view() != (
            #[trigger] self.committed@[b]).id_view() by {
                assert(t.parts_view()[a].id_view() != t.parts_view()[b].id_view());
            }
            assert forall|id: Seq<u8>| #[trigger]
                batch_map(self.committed@).contains_key(id) implies installed_map(
                acc,
                t,
            ).contains_key(id) && batch_map(self.committed@)[id] == installed_map(acc, t)[id] by {
                lemma_batch_map_domain(self.committed@, id);
                let j = choose|j: int|
                    0 <= j < self.committed@.len() && (#[trigger] self.committed@[j]).id_view()
                        == id;
                lemma_batch_map_index(self.committed@, j);
                assert(t.parts_view()[j].id_view() == id);
            }
            assert forall|id: Seq<u8>| #[trigger]
                installed_map(acc, t).contains_key(id) implies batch_map(
                self.committed@,
            ).contains_key(id) by {
                let j = choose|j: int|
                    0 <= j < t.parts_view().len() && (#[trigger] t.parts_view()[j]).id_view()
                        == id;
                assert(self.committed@[j].id_view() == id);
                lemma_batch_map_index(self.committed@, j);
            }
            assert(batch_map(self.committed@) =~= installed_map(acc, t));
        }
        Ok(())
    }

    #[verifier::loop_isolation(false)]
    fn get_parts(&mut self) -> (r: Result<Vec<StatePartData>, StateTransferError>) {
        if !self.initialized {
            return Err(StateTransferError::StateUnavailable);
        }
        let mut out: Vec<StatePartData> = Vec::new();
        proof {
            assert(self.committed@.take(0) =~= Seq::<StatePartData>::empty());
        }
        let mut i: usize = 0;
        while i < self.committed.len()
            invariant
                i <= self.committed@.len(),
                out@.len() == i,
                batch_map(out@) == batch_map(self.committed@.take(i as int)),
                forall|j: int| 0 <= j < i ==> part_valid(#[trigger] out@[j], self.seq_no),
            decreases self.committed@.len() - i,
        {
            let ghost pre = out@;
            out.push(self.committed[i].duplicate());
            proof {
                lemma_batch_map_push(pre, out@[pre.len() as int]);
                let t1 = self.committed@.take(i as int + 1);
                assert(t1.drop_last() =~= self.committed@.take(i as int));
                assert(t1.last() == self.committed@[i as int]);
                assert(part_valid(self.committed@[i as int], self.seq_no));
            }
            i += 1;
        }
        proof {
            assert(self.committed@.take(self.committed@.len() as int) =~= self.committed@);
        }
        Ok(out)
    }

    fn get_seqno(&self) -> (r: Result<SeqNo, StateTransferError>) {
        if self.initialized {
            Ok(self.seq_no)
        } else {
            Err(StateTransferError::StateUnavailable)
        }
    }
}

} // verus!
