//! Streaming SHA3-256 hashing.
//!
//! `sha3::Sha3_256` is a generic type alias in its own crate, so the type
//! itself cannot be declared to the verifier; it is held inside an opaque
//! struct instead, and `absorbed` names the byte stream that state has taken
//! in, so that contracts can speak of the hash of a whole stream while the
//! bytes themselves are long gone.

use vstd::prelude::*;
use sha3::Digest;

verus! {

/// The SHA3-256 digest of a byte string, as `sha3::Sha3_256` computes it:
/// a function of the input bytes alone, 32 bytes wide.
pub uninterp spec fn sha3_of(bytes: Seq<u8>) -> Seq<u8>;

/// A running SHA3-256 accumulator.
#[verifier::external_body]
pub struct Sha3Hasher {
    inner: sha3::Sha3_256,
}

/// The bytes this hasher state has absorbed, in order, since it was created
/// or last produced a digest.
pub uninterp spec fn absorbed(h: Sha3Hasher) -> Seq<u8>;

impl Sha3Hasher {
    /// Relies on `sha3::Digest::new`: a fresh hasher that has absorbed
    /// nothing.
    #[verifier::external_body]
    pub fn new() -> (r: Sha3Hasher)
        ensures
            absorbed(r) == Seq::<u8>::empty(),
    {
        Sha3Hasher { inner: sha3::Sha3_256::new() }
    }

    /// Relies on `sha3::Digest::update`: absorbing appends the chunk to the
    /// stream being hashed.
    #[verifier::external_body]
    pub fn absorb(&mut self, chunk: &Vec<u8>)
        ensures
            absorbed(*final(self)) == absorbed(*old(self)) + chunk@,
    {
        self.inner.update(chunk.as_slice());
    }

    /// Relies on `sha3::Digest::finalize_reset`: the 32-byte SHA3-256 digest
    /// of everything absorbed, leaving the hasher fresh again.
    #[verifier::external_body]
    pub fn digest(&mut self) -> (r: Vec<u8>)
        ensures
            r@ == sha3_of(absorbed(*old(self))),
            r@.len() == 32,
            absorbed(*final(self)) == Seq::<u8>::empty(),
    {
        self.inner.finalize_reset().to_vec()
    }
}

/// The SHA3-256 digest of a byte string held whole in memory.
pub fn sha3_256(bytes: &Vec<u8>) -> (r: Vec<u8>)
    ensures
        r@ == sha3_of(bytes@),
        r@.len() == 32,
{
    let mut acc = Sha3Hasher::new();
    acc.absorb(bytes);
    proof {
        assert(absorbed(acc) =~= bytes@);
    }
    acc.digest()
}

} // verus!
