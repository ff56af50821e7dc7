//! The crypto collaborators, behind trusted wrappers: hashing, signing and
//! elliptic-curve key agreement are performed by outside crates, and each
//! wrapper's contract states what the engine relies on.
//!
//! Results that are a pure function of the arguments (a digest, a signature,
//! a derived public key, a shared secret) are given opaque names; random
//! results are described only by what holds of every outcome.

use vstd::prelude::*;
use ed25519_dalek::Signer;
use rand::RngCore;
use sha2::Digest;

verus! {

/// The SHA-256 digest of a byte sequence.
pub uninterp spec fn sha256_of(data: Seq<u8>) -> Seq<u8>;

/// The Ed25519 signature of a message under a 32-byte secret key.
pub uninterp spec fn ed25519_sign_of(secret: Seq<u8>, msg: Seq<u8>) -> Seq<u8>;

/// The Ed25519 public key derived from a 32-byte secret key.
pub uninterp spec fn ed25519_public_of(secret: Seq<u8>) -> Seq<u8>;

/// The P-256 shared secret of a 32-byte secret scalar and a SEC1-encoded
/// peer public key.
pub uninterp spec fn ecdh_shared_of(secret: Seq<u8>, peer_public: Seq<u8>) -> Seq<u8>;

/// Relies on `sha2::Sha256`: the digest depends on the input bytes alone and
/// is 32 bytes long.
#[verifier::external_body]
pub(crate) fn sha256(data: &Vec<u8>) -> (r: Vec<u8>)
    ensures
        r@ == sha256_of(data@),
        r@.len() == 32,
{
    sha2::Sha256::digest(data.as_slice()).to_vec()
}

/// Relies on `ed25519_dalek::SigningKey::sign`: Ed25519 signing is
/// deterministic, so the 64-byte signature depends on the key and message
/// bytes alone.
#[verifier::external_body]
pub(crate) fn ed25519_sign(secret: &Vec<u8>, msg: &Vec<u8>) -> (r: Vec<u8>)
    requires
        secret@.len() == 32,
    ensures
        r@ == ed25519_sign_of(secret@, msg@),
        r@.len() == 64,
{
    let mut k = [0u8; 32];
    k.copy_from_slice(secret.as_slice());
    ed25519_dalek::SigningKey::from_bytes(&k).sign(msg.as_slice()).to_bytes().to_vec()
}

/// Relies on `ed25519_dalek::SigningKey::verifying_key`: the 32-byte public
/// key is derived from the secret key bytes alone.
#[verifier::external_body]
pub(crate) fn ed25519_public(secret: &Vec<u8>) -> (r: Vec<u8>)
    requires
        secret@.len() == 32,
    ensures
        r@ == ed25519_public_of(secret@),
        r@.len() == 32,
{
    let mut k = [0u8; 32];
    k.copy_from_slice(secret.as_slice());
    ed25519_dalek::SigningKey::from_bytes(&k).verifying_key().to_bytes().to_vec()
}

/// Relies on `p256::SecretKey::random` and `p256::PublicKey::to_sec1_bytes`:
/// a fresh ephemeral key pair as a 32-byte secret scalar and a 65-byte
/// uncompressed SEC1 public key.  The values are random; nothing more is
/// promised of them.
#[verifier::external_body]
pub(crate) fn ecdh_generate() -> (r: (Vec<u8>, Vec<u8>))
    ensures
        r.0@.len() == 32,
        r.1@.len() == 65,
{
    let sk = p256::SecretKey::random(&mut rand::rngs::OsRng);
    let secret = sk.to_bytes().to_vec();
    let public = sk.public_key().to_sec1_bytes().to_vec();
    (secret, public)
}

/// Relies on `p256::ecdh::diffie_hellman`: when the peer bytes parse as a
/// valid curve point and the secret as a valid scalar, the 32-byte shared
/// secret depends on the two inputs alone.
#[verifier::external_body]
pub(crate) fn ecdh_shared(secret: &Vec<u8>, peer_public: &Vec<u8>) -> (r: Option<Vec<u8>>)
    requires
        secret@.len() == 32,
    ensures
        r matches Some(v) ==> v@ == ecdh_shared_of(secret@, peer_public@) && v@.len() == 32,
{
    let sk = match p256::SecretKey::from_slice(secret.as_slice()) {
        Ok(s) => s,
        Err(_) => return None,
    };
    let pk = match p256::PublicKey::from_sec1_bytes(peer_public.as_slice()) {
        Ok(p) => p,
        Err(_) => return None,
    };
    let shared = p256::ecdh::diffie_hellman(sk.to_nonzero_scalar(), pk.as_affine());
    Some(shared.raw_secret_bytes().to_vec())
}

/// Relies on `rand::rngs::OsRng::fill_bytes`: `n` bytes from the operating
/// system's random source.  Only the length is promised.
#[verifier::external_body]
pub(crate) fn random_bytes(n: usize) -> (r: Vec<u8>)
    ensures
        r@.len() == n,
{
    let mut v = vec![0u8; n];
    rand::rngs::OsRng.fill_bytes(&mut v);
    v
}

} // verus!
