//! SHA-256, by which a received file is checked.

use sha2::Digest;
use vstd::prelude::*;

verus! {

/// The hasher of the `sha2` crate. What it holds is given by `absorbed`.
#[verifier::external_type_specification]
#[verifier::external_body]
pub struct ExSha256(sha2::Sha256);

/// The bytes that a hasher has taken in so far, in order.
pub uninterp spec fn absorbed(hasher: sha2::Sha256) -> Seq<u8>;

/// The SHA-256 digest of a byte sequence, as the `sha2` crate computes it.
pub uninterp spec fn sha256(bytes: Seq<u8>) -> Seq<u8>;

/// The length from which on a byte sequence is too long for SHA-256, which counts its
/// bits in 64 bits.
pub const DIGEST_LIMIT: u64 = 0x2000_0000_0000_0000;

/// `Digest::new` of `sha2::Sha256`: a hasher that has taken in nothing.
#[verifier::external_body]
pub(crate) fn new_hasher() -> (hasher: sha2::Sha256)
    ensures
        absorbed(hasher) == Seq::<u8>::empty(),
{
    sha2::Sha256::new()
}

/// `Digest::update` of `sha2::Sha256`: the hasher takes in the bytes behind what it had
/// taken in. The length stays within what the hasher can count.
#[verifier::external_body]
pub(crate) fn absorb(hasher: &mut sha2::Sha256, bytes: &[u8])
    requires
        absorbed(*old(hasher)).len() + bytes@.len() < DIGEST_LIMIT,
    ensures
        absorbed(*final(hasher)) == absorbed(*old(hasher)) + bytes@,
{
    hasher.update(bytes);
}

/// `Digest::finalize` of `sha2::Sha256`: the digest of all that the hasher has taken
/// in, 32 bytes long.
#[verifier::external_body]
pub(crate) fn finish(hasher: sha2::Sha256) -> (digest: Vec<u8>)
    requires
        absorbed(hasher).len() < DIGEST_LIMIT,
    ensures
        digest@ == sha256(absorbed(hasher)),
        digest@.len() == 32,
{
    hasher.finalize().to_vec()
}

} // verus!
