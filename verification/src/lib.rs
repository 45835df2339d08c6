//! Cryptographic session core of an Olm-style double-ratchet messaging
//! protocol: the Diffie-Hellman ratchet that advances a session's key
//! material, the symmetric root/chain key derivation, and the wire envelope
//! that tags and encodes ciphertext for transport.

use vstd::prelude::*;

pub mod base64;
pub mod chain_key;
pub mod crypto;
pub mod messages;
pub mod ratchet;
pub mod root_key;
pub mod wire;

verus! {

broadcast use vstd::array::group_array_axioms;

/// The reasons an incoming wire envelope can be rejected.
#[derive(Debug, Clone, Copy, PartialEq, Eq, Structural)]
pub enum DecodeError {
    /// The envelope's type tag was neither of the two known wire values.
    MessageType(usize),
    /// The body was not valid unpadded standard-alphabet base64.
    Base64,
    /// The binary body ended before all required fields were read.
    Truncated,
    /// The binary body was malformed: wrong version, wrong field tags,
    /// a non-minimal length encoding, or trailing bytes.
    InvalidStructure,
}

/// Overwrites 32 bytes of key material with zeros; every secret-bearing
/// type calls this when it is destroyed.
pub(crate) fn wipe_key(bytes: &mut [u8; 32])
    ensures
        forall|i: int| 0 <= i < 32 ==> final(bytes)@[i] == 0,
    opens_invariants none
    no_unwind
{
    let mut j: usize = 0;
    while j < 32
        invariant
            j <= 32,
            forall|k: int| 0 <= k < j ==> bytes@[k] == 0,
        decreases 32 - j,
    {
        bytes[j] = 0;
        j = j + 1;
    }
}

} // verus!
