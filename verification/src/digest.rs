//! Content digests.  A digest is a fixed-size cryptographic summary of a
//! byte stream, used to verify a part or a whole state without comparing the
//! payload itself.  The hash computation is delegated to the hash backend;
//! everything stated about a digest here is that it is a function of the
//! hashed bytes alone.

use vstd::prelude::*;

verus! {

/// The digest of a byte stream, as the hash backend computes it.  Named but
/// not defined: the backend's algorithm is relied on, not restated.
pub uninterp spec fn digest_of(bytes: Seq<u8>) -> Seq<u8>;

/// Relies on sha2::Sha256::digest: the 32-byte result is a function of the
/// input bytes alone, identical across machines and processes.
#[verifier::external_body]
fn sha256_of(bytes: &[u8]) -> (r: Vec<u8>)
    ensures
        r@ == digest_of(bytes@),
        r@.len() == 32,
{
    <sha2::Sha256 as sha2::Digest>::digest(bytes).to_vec()
}

/// Byte-wise equality of two slices.
pub fn bytes_equal(a: &[u8], b: &[u8]) -> (r: bool)
    ensures
        r == (a@ == b@),
{
    if a.len() != b.len() {
        return false;
    }
    let mut i: usize = 0;
    while i < a.len()
        invariant
            i <= a@.len(),
            a@.len() == b@.len(),
            forall|j: int| 0 <= j < i ==> a@[j] == b@[j],
        decreases a@.len() - i,
    {
        if a[i] != b[i] {
            return false;
        }
        i += 1;
    }
    proof {
        assert(a@ =~= b@);
    }
    true
}

/// Copy a byte slice into an owned vector.
pub fn copy_bytes(src: &[u8]) -> (r: Vec<u8>)
    ensures
        r@ == src@,
{
    let mut out: Vec<u8> = Vec::new();
    let mut i: usize = 0;
    while i < src.len()
        invariant
            i <= src@.len(),
            out@ == src@.take(i as int),
        decreases src@.len() - i,
    {
        out.push(src[i]);
        proof {
            assert(out@ =~= src@.take(i + 1 as int));
        }
        i += 1;
    }
    proof {
        assert(src@.take(src@.len() as int) =~= src@);
    }
    out
}

/// A fixed-size content digest.
pub struct Digest {
    bytes: Vec<u8>,
}

impl View for Digest {
    type V = Seq<u8>;

    /// The digest's bytes.
    closed spec fn view(&self) -> Seq<u8> {
        self.bytes@
    }
}

impl Digest {
    /// The digest's bytes, for transmission or comparison.
    pub fn as_bytes(&self) -> (r: &[u8])
        ensures
            r@ == self@,
    {
        self.bytes.as_slice()
    }

    /// Whether two digests summarize the same content.
    pub fn equals(&self, other: &Digest) -> (r: bool)
        ensures
            r == (self@ == other@),
    {
        bytes_equal(self.bytes.as_slice(), other.bytes.as_slice())
    }

    /// An owned copy of this digest.
    pub fn duplicate(&self) -> (r: Digest)
        ensures
            r@ == self@,
    {
        Digest { bytes: copy_bytes(self.bytes.as_slice()) }
    }
}

/// Compute the digest of a byte slice.
pub fn digest(bytes: &[u8]) -> (r: Digest)
    ensures
        r@ == digest_of(bytes@),
{
    Digest { bytes: sha256_of(bytes) }
}

/// Equal byte streams have equal digests: the digest is a function of the
/// bytes alone.  The converse — that distinct streams have distinct
/// digests — is the hash's collision resistance, which the surrounding
/// protocol assumes but which is not a mathematical fact and is not stated
/// here.
pub proof fn lemma_digest_deterministic(b1: Seq<u8>, b2: Seq<u8>)
    requires
        b1 == b2,
    ensures
        digest_of(b1) == digest_of(b2),
{
}

/// An incremental hashing context: bytes are fed in through any number of
/// `update` calls and `finish` returns the digest of their concatenation.
pub struct Context {
    buf: Vec<u8>,
}

impl Context {
    /// Everything fed in so far, in order.
    pub closed spec fn fed(&self) -> Seq<u8> {
        self.buf@
    }

    /// A fresh context with nothing fed in.
    pub fn new() -> (r: Context)
        ensures
            r.fed() == Seq::<u8>::empty(),
    {
        Context { buf: Vec::new() }
    }

    /// Feed more bytes into the context.
    pub fn update(&mut self, bytes: &[u8])
        ensures
            final(self).fed() == old(self).fed() + bytes@,
    {
        let mut i: usize = 0;
        while i < bytes.len()
            invariant
                i <= bytes@.len(),
                self.buf@ == old(self).buf@ + bytes@.take(i as int),
            decreases bytes@.len() - i,
        {
            self.buf.push(bytes[i]);
            proof {
                assert(self.buf@ =~= old(self).buf@ + bytes@.take(i + 1 as int));
            }
            i += 1;
        }
        proof {
            assert(old(self).buf@ + bytes@.take(bytes@.len() as int) =~= old(self).buf@ + bytes@);
        }
    }

    /// The digest of the concatenation of everything fed in.
    pub fn finish(self) -> (r: Digest)
        ensures
            r@ == digest_of(self.fed()),
    {
        digest(self.buf.as_slice())
    }
}

} // verus!
