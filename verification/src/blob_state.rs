//! A monolithic state that holds an opaque byte blob.  Its canonical
//! serialization is the blob behind a four-byte little-endian length prefix,
//! so that deserialization can check that it was handed exactly one whole
//! serialized value.

use vstd::prelude::*;

use crate::digest::{bytes_equal, copy_bytes};
use crate::error::StateTransferError;
use crate::monolithic_state::MonolithicState;

verus! {

/// The little-endian four-byte encoding of a length.
pub open spec fn le32(n: u32) -> Seq<u8> {
    seq![
        (n & 0xff) as u8,
        ((n >> 8) & 0xff) as u8,
        ((n >> 16) & 0xff) as u8,
        ((n >> 24) & 0xff) as u8,
    ]
}

/// Encode a length as four little-endian bytes.
pub fn le32_bytes(n: u32) -> (r: Vec<u8>)
    ensures
        r@ == le32(n),
{
    proof {
        assert(n & 0xff < 256 && (n >> 8) & 0xff < 256 && (n >> 16) & 0xff < 256 && (n >> 24)
            & 0xff < 256) by (bit_vector);
    }
    let mut v: Vec<u8> = Vec::new();
    v.push((n & 0xff) as u8);
    v.push(((n >> 8) & 0xff) as u8);
    v.push(((n >> 16) & 0xff) as u8);
    v.push(((n >> 24) & 0xff) as u8);
    proof {
        assert(v@ =~= le32(n));
    }
    v
}

/// A monolithic state value: one opaque blob of application bytes.
pub struct BlobState {
    data: Vec<u8>,
}

impl BlobState {
    /// The blob's bytes.
    pub closed spec fn data_spec(&self) -> Seq<u8> {
        self.data@
    }

    /// A state holding the given blob.
    pub fn new(data: Vec<u8>) -> (r: Self)
        ensures
            r.data_spec() == data@,
    {
        BlobState { data }
    }

    /// Borrow the blob's bytes.
    pub fn data(&self) -> (r: &[u8])
        ensures
            r@ == self.data_spec(),
    {
        self.data.as_slice()
    }
}

impl MonolithicState for BlobState {
    /// Length prefix, then the blob.
    open spec fn bytes_spec(&self) -> Seq<u8> {
        le32(self.data_spec().len() as u32) + self.data_spec()
    }

    /// Only a blob whose length fits the four-byte prefix serializes.
    open spec fn serializable(&self) -> bool {
        self.data_spec().len() <= u32::MAX
    }

    open spec fn size_spec(&self) -> int {
        self.data_spec().len() as int
    }

    fn serialize_state(&self) -> (r: Result<Vec<u8>, StateTransferError>) {
        if self.data.len() > u32::MAX as usize {
            return Err(StateTransferError::SerializationFailure);
        }
        let mut out = le32_bytes(self.data.len() as u32);
        let mut tail = copy_bytes(self.data.as_slice());
        out.append(&mut tail);
        Ok(out)
    }

    fn deserialize_state(bytes: &[u8]) -> (r: Result<Self, StateTransferError>) {
        if bytes.len() < 4 {
            return Err(StateTransferError::SerializationFailure);
        }
        let n = bytes.len() - 4;
        if n > u32::MAX as usize {
            return Err(StateTransferError::SerializationFailure);
        }
        let expected = le32_bytes(n as u32);
        let prefix = &bytes[0..4];
        if !bytes_equal(prefix, expected.as_slice()) {
            proof {
                assert forall|s: BlobState| !(s.serializable() && (#[trigger] s.bytes_spec())
                    == bytes@) by {
                    if s.serializable() && s.bytes_spec() == bytes@ {
                        assert(s.data_spec().len() == n);
                        assert(bytes@.subrange(0, 4) =~= le32(n as u32));
                    }
                }
            }
            return Err(StateTransferError::SerializationFailure);
        }
        let data = copy_bytes(&bytes[4..bytes.len()]);
        let s = BlobState { data };
        proof {
            assert(s.bytes_spec() =~= bytes@);
        }
        Ok(s)
    }

    fn size(&self) -> (r: usize) {
        self.data.len()
    }
}

} // verus!
