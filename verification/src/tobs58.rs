//! Base-58 text naming of binary values: the human-readable form the roles
//! print, and the storage key a replica files each object under.

use vstd::prelude::*;
use crate::bls::AggregateIdentity;

verus! {

/// The base-58 text of a byte string, as `bs58::encode` produces it: a
/// function of the bytes alone.
pub uninterp spec fn bs58_of(bytes: Seq<u8>) -> Seq<char>;

/// Relies on `bs58::encode(..).into_string()`: deterministic base-58 text
/// of the bytes; empty input gives empty text.
#[verifier::external_body]
pub fn bs58_string(bytes: &Vec<u8>) -> (r: String)
    ensures
        r@ == bs58_of(bytes@),
        bytes@.len() == 0 ==> r@.len() == 0,
{
    bs58::encode(bytes.as_slice()).into_string()
}

/// Base-58 naming.
pub trait ToBs58 {
    /// The bytes the name is derived from.
    spec fn bs58_input(&self) -> Seq<u8>;

    /// The base-58 text of those bytes.
    fn to_bs58(&self) -> (r: String)
        ensures
            r@ == bs58_of(self.bs58_input()),
    ;
}

impl ToBs58 for Vec<u8> {
    open spec fn bs58_input(&self) -> Seq<u8> {
        self@
    }

    fn to_bs58(&self) -> (r: String) {
        bs58_string(self)
    }
}

impl ToBs58 for AggregateIdentity {
    open spec fn bs58_input(&self) -> Seq<u8> {
        self.key()
    }

    fn to_bs58(&self) -> (r: String) {
        bs58_string(self.key_bytes())
    }
}

} // verus!
