//! SHA-256, and the two hashes that every U2F message is built on.

use sha2::{Digest, Sha256};
use vstd::prelude::*;

verus! {

/// Length in bytes of a SHA-256 digest.
pub const DIGEST_LEN: usize = 32;

/// The SHA-256 digest of `message`, as the `sha2` crate computes it.
pub uninterp spec fn sha256(message: Seq<u8>) -> Seq<u8>;

/// Calls `sha2::Sha256::digest`, the one-shot form of the hash.
///
/// Trusted: the result is the digest of exactly the bytes given, and it is
/// the 32 bytes that the output type of `Sha256` fixes.
#[verifier::external_body]
pub(crate) fn sha256_digest(message: &[u8]) -> (digest: Vec<u8>)
    ensures
        digest@ == sha256(message@),
        digest@.len() == DIGEST_LEN,
{
    Sha256::digest(message).to_vec()
}

/// The application parameter: the digest of the relying party's identifier.
pub open spec fn application_parameter(application: Seq<char>) -> Seq<u8> {
    sha256(vstd::utf8::encode_utf8(application))
}

/// The challenge parameter: the digest of the client data that carries the challenge.
pub open spec fn challenge_parameter(challenge: Seq<char>) -> Seq<u8> {
    sha256(vstd::utf8::encode_utf8(challenge))
}

/// Hashes the relying party's identifier into the 32-byte application parameter.
pub fn application_id(application: &str) -> (id: Vec<u8>)
    ensures
        id@ == application_parameter(application@),
        id@.len() == DIGEST_LEN,
{
    sha256_digest(application.as_bytes())
}

/// Hashes the challenge, as the relying party serialised it, into the 32-byte
/// challenge parameter.
pub fn challenge_hash(challenge: &str) -> (hash: Vec<u8>)
    ensures
        hash@ == challenge_parameter(challenge@),
        hash@.len() == DIGEST_LEN,
{
    sha256_digest(challenge.as_bytes())
}

} // verus!
