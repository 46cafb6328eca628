use std::sync::Arc;

use smr_state::digest::digest;
use smr_state::divisible_state::{
    install_step, AppState, AppStateMessage, DivisibleState, DivisibleStateDescriptor,
    InstallPhase, InstallStateMessage, PartId, StatePart,
};
use smr_state::error::StateTransferError;
use smr_state::maybe_vec::MaybeVec;
use smr_state::ordering::{Orderable, SeqNo};
use smr_state::parted_state::{PartDescription, PartedState, StateDescriptor, StatePartData};

fn description_of(id: u8, bytes: &[u8], seq: SeqNo) -> PartDescription {
    let content = digest(bytes).as_bytes().to_vec();
    PartDescription::new(vec![id], content, seq)
}

fn part_of(id: u8, bytes: &[u8], seq: SeqNo) -> StatePartData {
    StatePartData::new(description_of(id, bytes, seq), bytes.to_vec())
}

fn three_part_target(seq: SeqNo) -> StateDescriptor {
    let descriptions = vec![
        Arc::new(description_of(1, &[10, 11], seq)),
        Arc::new(description_of(2, &[20, 21, 22], seq)),
        Arc::new(description_of(3, &[30], seq)),
    ];
    StateDescriptor::new(seq, descriptions, None).unwrap()
}

#[test]
fn descriptor_lists_its_three_parts() {
    let seq = SeqNo(4);
    let target = three_part_target(seq);
    let parts = target.parts();
    assert_eq!(parts.len(), 3);
    assert_eq!(parts[0].id(), &[1]);
    assert_eq!(parts[1].id(), &[2]);
    assert_eq!(parts[2].id(), &[3]);
    assert_eq!(parts[0].seq_no(), seq);
    assert_eq!(target.sequence_number(), seq);
    assert!(target.get_digest().is_none());
}

#[test]
fn descriptor_rejects_duplicate_ids() {
    let seq = SeqNo(1);
    let descriptions = vec![
        Arc::new(description_of(1, &[10], seq)),
        Arc::new(description_of(1, &[20], seq)),
    ];
    let r = StateDescriptor::new(seq, descriptions, None);
    assert_eq!(r.err().unwrap(), StateTransferError::PartVerificationFailed);
}

#[test]
fn descriptor_rejects_foreign_checkpoint_parts() {
    let descriptions = vec![Arc::new(description_of(1, &[10], SeqNo(2)))];
    let r = StateDescriptor::new(SeqNo(1), descriptions, None);
    assert_eq!(r.err().unwrap(), StateTransferError::SequenceMismatch);
}

#[test]
fn part_hash_equals_digest_of_bytes() {
    let part = part_of(1, &[10, 11], SeqNo(0));
    let expected = digest(part.bytes());
    assert!(part.hash().equals(&expected));
    assert_eq!(part.length(), 2);
    assert_eq!(part.size(), 2);
    assert_eq!(part.id(), &[1]);
    assert_eq!(part.descriptor().id(), &[1]);
}

#[test]
fn corrupt_part_is_rejected_and_valid_parts_retained() {
    let seq = SeqNo(4);
    let mut state = PartedState::new();
    state.begin_transfer(three_part_target(seq));

    assert!(state.accept_parts(vec![part_of(1, &[10, 11], seq)]).is_ok());

    // part 2 claims the committed content description but carries other bytes
    let corrupt = StatePartData::new(description_of(2, &[20, 21, 22], seq), vec![99, 99, 99]);
    let r = state.accept_parts(vec![corrupt]);
    assert_eq!(r.err().unwrap(), StateTransferError::PartVerificationFailed);

    assert!(state.accept_parts(vec![part_of(3, &[30], seq)]).is_ok());

    // parts 1 and 3 are retained: only part 2 is still missing
    assert_eq!(
        state.finalize_transfer().err().unwrap(),
        StateTransferError::IncompleteState
    );
    assert!(state.accept_parts(vec![part_of(2, &[20, 21, 22], seq)]).is_ok());
    assert!(state.finalize_transfer().is_ok());
    assert_eq!(state.get_seqno().unwrap(), seq);
}

#[test]
fn finalize_fails_while_a_part_is_missing() {
    let seq = SeqNo(4);
    let mut state = PartedState::new();
    state.begin_transfer(three_part_target(seq));
    assert!(state.accept_parts(vec![part_of(1, &[10, 11], seq)]).is_ok());
    assert!(state.accept_parts(vec![part_of(3, &[30], seq)]).is_ok());
    let r = state.finalize_transfer();
    assert_eq!(r.err().unwrap(), StateTransferError::IncompleteState);
    // the failure must not have marked the state ready
    assert_eq!(
        state.get_seqno().err().unwrap(),
        StateTransferError::StateUnavailable
    );
}

fn install_all_three(resend_first: bool) -> PartedState {
    let seq = SeqNo(4);
    let mut state = PartedState::new();
    state.begin_transfer(three_part_target(seq));
    assert!(state.accept_parts(vec![part_of(1, &[10, 11], seq)]).is_ok());
    assert!(state
        .accept_parts(vec![part_of(2, &[20, 21, 22], seq), part_of(3, &[30], seq)])
        .is_ok());
    if resend_first {
        assert!(state.accept_parts(vec![part_of(1, &[10, 11], seq)]).is_ok());
    }
    assert!(state.finalize_transfer().is_ok());
    state
}

#[test]
fn resending_an_accepted_part_leaves_the_digest_unchanged() {
    let plain = install_all_three(false);
    let resent = install_all_three(true);

    let d1 = plain.get_descriptor().get_digest().unwrap();
    let d2 = resent.get_descriptor().get_digest().unwrap();
    assert!(d1.equals(&d2));
    assert_eq!(plain.get_seqno().unwrap(), resent.get_seqno().unwrap());
}

#[test]
fn installed_state_serves_its_parts_and_descriptor() {
    let seq = SeqNo(4);
    let mut state = install_all_three(false);

    let descriptor = state.get_descriptor();
    assert_eq!(descriptor.sequence_number(), seq);
    assert_eq!(descriptor.parts().len(), 3);
    assert!(descriptor.get_digest().is_some());

    let parts = state.get_parts().unwrap();
    assert_eq!(parts.len(), 3);
    for part in parts.iter() {
        let recomputed = digest(part.bytes());
        assert_eq!(
            part.descriptor().content_description(),
            recomputed.as_bytes()
        );
        assert_eq!(part.descriptor().seq_no(), seq);
    }
}

#[test]
fn accept_without_a_transfer_is_a_sequence_mismatch() {
    let mut state = PartedState::new();
    let r = state.accept_parts(vec![part_of(1, &[10], SeqNo(0))]);
    assert_eq!(r.err().unwrap(), StateTransferError::SequenceMismatch);
}

#[test]
fn accept_rejects_parts_of_another_checkpoint() {
    let mut state = PartedState::new();
    state.begin_transfer(three_part_target(SeqNo(4)));
    let r = state.accept_parts(vec![part_of(1, &[10, 11], SeqNo(5))]);
    assert_eq!(r.err().unwrap(), StateTransferError::SequenceMismatch);
}

#[test]
fn finalize_without_a_transfer_is_unavailable() {
    let mut state = PartedState::new();
    let r = state.finalize_transfer();
    assert_eq!(r.err().unwrap(), StateTransferError::StateUnavailable);
}

#[test]
fn fresh_state_reports_nothing_committed() {
    let mut state = PartedState::new();
    assert_eq!(
        state.get_seqno().err().unwrap(),
        StateTransferError::StateUnavailable
    );
    assert_eq!(
        state.get_parts().err().unwrap(),
        StateTransferError::StateUnavailable
    );
}

#[test]
fn install_machine_runs_from_idle_to_ready() {
    let seq = SeqNo(4);
    let mut state = PartedState::new();
    state.begin_transfer(three_part_target(seq));

    let batch1 = MaybeVec::from_many(vec![
        part_of(1, &[10, 11], seq),
        part_of(2, &[20, 21, 22], seq),
    ]);
    let batch2 = MaybeVec::from_one(part_of(3, &[30], seq));

    let phase = InstallPhase::Idle;
    let (phase, r) = install_step(&mut state, phase, InstallStateMessage::StatePart(batch1));
    assert!(r.is_ok());
    assert_eq!(phase, InstallPhase::Receiving);

    let (phase, r) = install_step(&mut state, phase, InstallStateMessage::StatePart(batch2));
    assert!(r.is_ok());
    assert_eq!(phase, InstallPhase::Receiving);

    let (phase, r) = install_step(&mut state, phase, InstallStateMessage::<PartedState>::Done);
    assert!(r.is_ok());
    assert_eq!(phase, InstallPhase::Ready);

    assert_eq!(state.get_seqno().unwrap(), seq);
}

#[test]
fn premature_done_parks_the_machine_in_failed() {
    let seq = SeqNo(4);
    let mut state = PartedState::new();
    state.begin_transfer(three_part_target(seq));

    let batch = MaybeVec::from_one(part_of(1, &[10, 11], seq));
    let (phase, r) = install_step(&mut state, InstallPhase::Idle, InstallStateMessage::StatePart(batch));
    assert!(r.is_ok());

    let (phase, r) = install_step(&mut state, phase, InstallStateMessage::<PartedState>::Done);
    assert_eq!(r.err().unwrap(), StateTransferError::IncompleteState);
    assert_eq!(phase, InstallPhase::Failed);
}

#[test]
fn app_state_message_returns_its_pair() {
    let msg = AppStateMessage::<PartedState>::new(SeqNo(9), AppState::Done);
    assert_eq!(msg.sequence_number(), SeqNo(9));
    let (seq, payload) = msg.into_state();
    assert_eq!(seq, SeqNo(9));
    assert!(matches!(payload, AppState::<PartedState>::Done));

    let target = three_part_target(SeqNo(2));
    let msg = AppStateMessage::<PartedState>::new(SeqNo(2), AppState::StateDescriptor(target));
    let (seq, payload) = msg.into_state();
    assert_eq!(seq, SeqNo(2));
    match payload {
        AppState::StateDescriptor(d) => assert_eq!(d.parts().len(), 3),
        _ => panic!("wrong payload variant"),
    }
}

#[test]
fn maybe_vec_holds_zero_one_or_many() {
    let empty: MaybeVec<u8> = MaybeVec::empty();
    assert_eq!(empty.len(), 0);
    assert_eq!(empty.into_vec(), Vec::<u8>::new());

    let one = MaybeVec::from_one(7u8);
    assert_eq!(one.len(), 1);
    assert_eq!(one.into_vec(), vec![7]);

    let many = MaybeVec::from_many(vec![1u8, 2, 3]);
    assert_eq!(many.len(), 3);
    assert_eq!(many.into_vec(), vec![1, 2, 3]);
}

#[test]
fn descriptors_of_converged_replicas_compare_equal() {
    let a = install_all_three(false).get_descriptor();
    let b = install_all_three(true).get_descriptor();
    assert!(a.equals(&b));

    let other = three_part_target(SeqNo(4));
    assert!(!a.equals(&other));  // no whole-state digest was committed in `other`

    let different_seq = three_part_target(SeqNo(5));
    assert!(!other.equals(&different_seq));
}

#[test]
fn duplicate_carries_identity_and_payload() {
    let part = part_of(5, &[1, 2, 3], SeqNo(1));
    let copy = part.duplicate();
    assert_eq!(copy.id(), part.id());
    assert_eq!(copy.bytes(), part.bytes());
    assert_eq!(
        copy.descriptor().content_description(),
        part.descriptor().content_description()
    );
    assert_eq!(copy.descriptor().seq_no(), part.descriptor().seq_no());
}
