//! The cryptographic provider: hashing, Ed25519 signing and key
//! derivation, and the operating system's entropy source. Each call is
//! trusted with a contract that names its result; everything built on top
//! of these is verified.

use vstd::prelude::*;
use rand_os::rand_core::RngCore;

verus! {

/// The Blake2b digest, with a 256-bit output, of a byte string.
pub uninterp spec fn blake2b_256_of(data: Seq<u8>) -> Seq<u8>;

/// The Ed25519 public key derived from a 32-byte seed.
pub uninterp spec fn ed25519_public_of(seed: Seq<u8>) -> Seq<u8>;

/// The Ed25519 public key derived from a 64-byte extended secret key.
pub uninterp spec fn ed25519_extended_public_of(key: Seq<u8>) -> Seq<u8>;

/// The Ed25519 signature over a message by a 64-byte keypair
/// (seed followed by public key).
pub uninterp spec fn ed25519_sign_of(keypair: Seq<u8>, message: Seq<u8>) -> Seq<u8>;

/// The Ed25519 signature over a message by a 64-byte extended secret key.
pub uninterp spec fn ed25519_sign_extended_of(key: Seq<u8>, message: Seq<u8>) -> Seq<u8>;

/// Relies on cryptoxide's Blake2b with a 256-bit output: the digest is a
/// function of the input bytes alone, and is 32 bytes long.
#[verifier::external_body]
pub(crate) fn blake2b_256(data: &[u8]) -> (r: Vec<u8>)
    ensures
        r@ == blake2b_256_of(data@),
        r@.len() == 32,
{
    let mut out = [0u8; 32];
    cryptoxide::hashing::blake2b::Blake2b::<256>::new()
        .update(data)
        .finalize_at(&mut out);
    out.to_vec()
}

/// Relies on cryptoxide::ed25519::keypair: the public key is a function of
/// the 32-byte seed alone, and is 32 bytes long.
#[verifier::external_body]
pub(crate) fn ed25519_public(seed: &[u8]) -> (r: Vec<u8>)
    requires
        seed@.len() == 32,
    ensures
        r@ == ed25519_public_of(seed@),
        r@.len() == 32,
{
    let mut s = [0u8; 32];
    s.copy_from_slice(seed);
    let (_, public) = cryptoxide::ed25519::keypair(&s);
    public.to_vec()
}

/// Relies on cryptoxide::ed25519::extended_to_public: the public key is a
/// function of the 64-byte extended secret key alone, and is 32 bytes long.
#[verifier::external_body]
pub(crate) fn ed25519_extended_public(key: &[u8]) -> (r: Vec<u8>)
    requires
        key@.len() == 64,
    ensures
        r@ == ed25519_extended_public_of(key@),
        r@.len() == 32,
{
    let mut k = [0u8; 64];
    k.copy_from_slice(key);
    cryptoxide::ed25519::extended_to_public(&k).to_vec()
}

/// Relies on cryptoxide::ed25519::signature: Ed25519 signing is
/// deterministic, a function of the keypair (seed then public key) and the
/// message alone; the signature is 64 bytes long.
#[verifier::external_body]
pub(crate) fn ed25519_sign(seed: &[u8], public: &[u8], message: &[u8]) -> (r: Vec<u8>)
    requires
        seed@.len() == 32,
        public@.len() == 32,
    ensures
        r@ == ed25519_sign_of(seed@ + public@, message@),
        r@.len() == 64,
{
    let mut keypair = [0u8; 64];
    keypair[..32].copy_from_slice(seed);
    keypair[32..].copy_from_slice(public);
    cryptoxide::ed25519::signature(message, &keypair).to_vec()
}

/// Relies on cryptoxide::ed25519::signature_extended: deterministic, a
/// function of the 64-byte extended secret key and the message alone; the
/// signature is 64 bytes long.
#[verifier::external_body]
pub(crate) fn ed25519_sign_extended(key: &[u8], message: &[u8]) -> (r: Vec<u8>)
    requires
        key@.len() == 64,
    ensures
        r@ == ed25519_sign_extended_of(key@, message@),
        r@.len() == 64,
{
    let mut k = [0u8; 64];
    k.copy_from_slice(key);
    cryptoxide::ed25519::signature_extended(message, &k).to_vec()
}

/// Relies on rand_os::OsRng (through rand_core::RngCore::try_fill_bytes):
/// fills a buffer from the operating system's entropy source. Beyond their
/// number, nothing holds of the bytes; the call fails when the source does.
#[verifier::external_body]
pub(crate) fn os_random_bytes(n: usize) -> (r: Option<Vec<u8>>)
    ensures
        r matches Some(v) ==> v@.len() == n,
{
    let mut buf = vec![0u8; n];
    let mut rng = rand_os::OsRng;
    match rng.try_fill_bytes(&mut buf) {
        Ok(()) => Some(buf),
        Err(_) => None,
    }
}

} // verus!
