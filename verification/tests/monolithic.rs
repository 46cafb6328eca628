use smr_state::blob_state::{le32_bytes, BlobState};
use smr_state::digest::{digest, Context};
use smr_state::error::StateTransferError;
use smr_state::monolithic_state::{
    digest_state, serialize_round_trip, AppStateMessage, InstallStateMessage, MonolithicState,
};
use smr_state::ordering::SeqNo;

fn pattern_blob(len: usize) -> Vec<u8> {
    let mut data = Vec::new();
    for i in 0..len {
        data.push(((i * 7 + 3) % 256) as u8);
    }
    data
}

#[test]
fn monolithic_round_trip_one_kilobyte() {
    let data = pattern_blob(1024);
    let state = BlobState::new(data.clone());

    let serialized = state.serialize_state().unwrap();
    assert_eq!(serialized.len(), 1028);

    let d = digest_state(&state).unwrap();
    assert_eq!(d.as_bytes().len(), 32);

    let restored = BlobState::deserialize_state(serialized.as_slice()).unwrap();
    assert_eq!(restored.data(), data.as_slice());

    let reserialized = restored.serialize_state().unwrap();
    assert_eq!(reserialized, serialized);

    let d2 = digest_state(&restored).unwrap();
    assert!(d.equals(&d2));
}

#[test]
fn round_trip_helper_returns_equal_streams() {
    let state = BlobState::new(pattern_blob(300));
    let (first, second) = serialize_round_trip(&state).unwrap();
    assert_eq!(first, second);
}

#[test]
fn serialization_has_exact_layout() {
    let state = BlobState::new(vec![170, 187]);
    let serialized = state.serialize_state().unwrap();
    assert_eq!(serialized, vec![2, 0, 0, 0, 170, 187]);
}

#[test]
fn length_prefix_is_little_endian() {
    assert_eq!(le32_bytes(0x01020304), vec![4, 3, 2, 1]);
    assert_eq!(le32_bytes(0), vec![0, 0, 0, 0]);
}

#[test]
fn empty_blob_round_trips() {
    let state = BlobState::new(Vec::new());
    let serialized = state.serialize_state().unwrap();
    assert_eq!(serialized, vec![0, 0, 0, 0]);
    let restored = BlobState::deserialize_state(serialized.as_slice()).unwrap();
    assert_eq!(restored.data().len(), 0);
}

#[test]
fn equal_states_have_equal_digests() {
    let a = BlobState::new(pattern_blob(64));
    let b = BlobState::new(pattern_blob(64));
    let da = digest_state(&a).unwrap();
    let db = digest_state(&b).unwrap();
    assert!(da.equals(&db));

    let c = BlobState::new(pattern_blob(65));
    let dc = digest_state(&c).unwrap();
    assert!(!da.equals(&dc));
}

#[test]
fn deserialize_rejects_truncated_stream() {
    let r = BlobState::deserialize_state(&[1, 2, 3]);
    assert_eq!(r.err().unwrap(), StateTransferError::SerializationFailure);
}

#[test]
fn deserialize_rejects_wrong_prefix() {
    let r = BlobState::deserialize_state(&[5, 0, 0, 0, 1, 2]);
    assert_eq!(r.err().unwrap(), StateTransferError::SerializationFailure);
}

#[test]
fn incremental_context_matches_one_shot_digest() {
    let mut ctx = Context::new();
    ctx.update(&[1, 2, 3]);
    ctx.update(&[4, 5]);
    let incremental = ctx.finish();
    let one_shot = digest(&[1, 2, 3, 4, 5]);
    assert!(incremental.equals(&one_shot));
}

#[test]
fn digest_is_a_real_summary() {
    let input = [0u8; 5];
    let d = digest(&input);
    assert_eq!(d.as_bytes().len(), 32);
    assert_ne!(d.as_bytes(), &input[..]);
}

#[test]
fn monolithic_envelopes_carry_their_state() {
    let state = BlobState::new(vec![9, 9, 9]);
    let msg = AppStateMessage::new(SeqNo(7), state);
    assert_eq!(msg.seq(), SeqNo(7));
    assert_eq!(msg.state().data(), &[9, 9, 9]);
    let state = msg.into_state();
    assert_eq!(state.data(), &[9, 9, 9]);
    assert_eq!(state.size(), 3);

    let install = InstallStateMessage::new(state);
    assert_eq!(install.state().data(), &[9, 9, 9]);
    assert_eq!(install.into_state().data(), &[9, 9, 9]);
}
