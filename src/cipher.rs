//! Authenticated encryption of frame bodies (XChaCha20-Poly1305) under a
//! transaction's derived key. The checksum of a frame guards against
//! corruption in transit; the authentication tag guards against tampering
//! and a wrong key.
use vstd::prelude::*;

verus! {

/// What sealing adds to a plaintext: a 24-byte nonce and a 16-byte tag.
pub const SEAL_OVERHEAD: usize = 40;

/// Relies on `orion::aead::seal`, the key bytes turned into orion's
/// `SecretKey` by its `TryFrom<&[u8]>`: on success the output is the random
/// nonce, the ciphertext and the tag, `SEAL_OVERHEAD` bytes longer than the
/// plaintext; an empty plaintext is refused. Any failure becomes `None`.
#[verifier::external_body]
pub(crate) fn aead_seal(key: &[u8], plaintext: &[u8]) -> (r: Option<Vec<u8>>)
    ensures
        plaintext@.len() == 0 ==> r is None,
        r matches Some(c) ==> c@.len() == plaintext@.len() + SEAL_OVERHEAD,
{
    let k = orion::aead::SecretKey::try_from(key).ok()?;
    orion::aead::seal(&k, plaintext).ok()
}

/// What opening `sealed` under `key` yields: the plaintext, or `None` when
/// authentication fails.
pub uninterp spec fn aead_open_of(key: Seq<u8>, sealed: Seq<u8>) -> Option<Seq<u8>>;

/// Relies on `orion::aead::open`, the key bytes turned into orion's
/// `SecretKey` by its `TryFrom<&[u8]>`: input no longer than
/// `SEAL_OVERHEAD` is refused, and a verified plaintext is `SEAL_OVERHEAD`
/// bytes shorter than the input. A failed check or conversion becomes
/// `None`. The result depends on the key and the input alone.
#[verifier::external_body]
pub(crate) fn aead_open(key: &[u8], sealed: &[u8]) -> (r: Option<Vec<u8>>)
    ensures
        r is None <==> aead_open_of(key@, sealed@) is None,
        r matches Some(p) ==> aead_open_of(key@, sealed@) == Some(p@),
        sealed@.len() <= SEAL_OVERHEAD ==> r is None,
        r matches Some(p) ==> p@.len() == sealed@.len() - SEAL_OVERHEAD,
{
    let k = orion::aead::SecretKey::try_from(key).ok()?;
    orion::aead::open(&k, sealed).ok()
}

} // verus!
