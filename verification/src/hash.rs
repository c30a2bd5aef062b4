//! The hash engine: Keccak-256 over an arbitrary byte sequence, called
//! through a trusted wrapper around the `tiny_keccak` crate.

use vstd::prelude::*;
use tiny_keccak::{Hasher, Keccak};

verus! {

/// Name for the Keccak-256 digest of a byte sequence. The digest is a pure
/// function of the bytes alone, so equal inputs name equal digests.
pub uninterp spec fn keccak_of(b: Seq<u8>) -> Seq<u8>;

/// Relies on tiny_keccak's `Keccak::v256`, `Hasher::update` and
/// `Hasher::finalize`: the Keccak-256 digest (original pre-standard
/// padding, delimiter 0x01) of the input bytes, filling the whole 32-byte
/// output, a pure function of the input bytes alone.
#[verifier::external_body]
fn keccak256_call(b: &Vec<u8>) -> (r: [u8; 32])
    ensures
        r@ == keccak_of(b@),
{
    let mut k = Keccak::v256();
    k.update(b.as_slice());
    let mut out = [0u8; 32];
    k.finalize(&mut out);
    out
}

/// Compute the Keccak-256 digest of `b`.
pub fn digest(b: &Vec<u8>) -> (r: [u8; 32])
    ensures
        r@ == keccak_of(b@),
        keccak_of(b@).len() == 32,
{
    keccak256_call(b)
}

/// Law: the digest is deterministic — two identical inputs yield the same
/// 32-byte digest.
pub proof fn lemma_digest_deterministic(b1: Seq<u8>, b2: Seq<u8>)
    requires
        b1 == b2,
    ensures
        keccak_of(b1) == keccak_of(b2),
{
}

} // verus!
