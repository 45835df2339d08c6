//! The trusted boundary to the cryptographic primitives. Each function
//! here wraps one outside call; what it returns is named by an
//! uninterpreted function of its arguments, and everything proved about
//! key derivation rests on these names.

use vstd::prelude::*;

use hmac::Mac;

verus! {

/// The X25519 shared secret of a secret scalar and a remote public
/// point, as 32 bytes.
pub uninterp spec fn x25519_of(secret: Seq<u8>, public: Seq<u8>) -> Seq<u8>;

/// The X25519 public point derived from a secret scalar, as 32 bytes.
pub uninterp spec fn x25519_base_of(secret: Seq<u8>) -> Seq<u8>;

/// The HMAC-SHA-256 digest of a message under a key, as 32 bytes.
pub uninterp spec fn hmac_sha256_of(key: Seq<u8>, data: Seq<u8>) -> Seq<u8>;

/// The first 64 bytes of HKDF-SHA-256 output for a salt, input key
/// material and an info string.
pub uninterp spec fn hkdf_sha256_64_of(salt: Seq<u8>, ikm: Seq<u8>, info: Seq<u8>) -> Seq<u8>;

/// Relies on `rand::thread_rng` and `rand::RngCore::fill_bytes`: 32
/// bytes from the thread-local cryptographically secure generator.
/// Nothing can be promised of a random value.
#[verifier::external_body]
pub(crate) fn random_bytes() -> (r: [u8; 32]) {
    let mut bytes = [0u8; 32];
    rand::RngCore::fill_bytes(&mut rand::thread_rng(), &mut bytes);
    bytes
}

/// Relies on `x25519_dalek::StaticSecret::diffie_hellman`: the shared
/// secret depends on the secret scalar (clamped by the library) and the
/// remote public point alone, and the call cannot fail.
#[verifier::external_body]
pub(crate) fn x25519(secret: &[u8; 32], public: &[u8; 32]) -> (r: [u8; 32])
    ensures
        r@ == x25519_of(secret@, public@),
{
    let s = x25519_dalek::StaticSecret::from(*secret);
    let p = x25519_dalek::PublicKey::from(*public);
    s.diffie_hellman(&p).to_bytes()
}

/// Relies on `x25519_dalek::PublicKey::from(&StaticSecret)`: the public
/// point depends on the secret scalar alone.
#[verifier::external_body]
pub(crate) fn x25519_base(secret: &[u8; 32]) -> (r: [u8; 32])
    ensures
        r@ == x25519_base_of(secret@),
{
    let s = x25519_dalek::StaticSecret::from(*secret);
    x25519_dalek::PublicKey::from(&s).to_bytes()
}

/// Relies on `hmac::Hmac<sha2::Sha256>`: the digest depends on key and
/// message alone; a key of any length is accepted, so construction
/// cannot fail.
#[verifier::external_body]
pub(crate) fn hmac_sha256(key: &[u8], data: &[u8]) -> (r: [u8; 32])
    ensures
        r@ == hmac_sha256_of(key@, data@),
{
    let mut mac = match hmac::Hmac::<sha2::Sha256>::new_from_slice(key) {
        Ok(m) => m,
        Err(_) => return [0u8; 32],
    };
    mac.update(data);
    let out = mac.finalize().into_bytes();
    let mut r = [0u8; 32];
    r.copy_from_slice(&out);
    r
}

/// Relies on `hkdf::Hkdf<sha2::Sha256>`: the output key material
/// depends on salt, input key material and info alone; `expand` fails
/// only for outputs longer than 8160 bytes, and 64 is requested.
#[verifier::external_body]
pub(crate) fn hkdf_sha256_64(salt: &[u8], ikm: &[u8], info: &[u8]) -> (r: [u8; 64])
    ensures
        r@ == hkdf_sha256_64_of(salt@, ikm@, info@),
{
    let hk = hkdf::Hkdf::<sha2::Sha256>::new(Some(salt), ikm);
    let mut okm = [0u8; 64];
    let _ = hk.expand(info, &mut okm);
    okm
}

} // verus!
