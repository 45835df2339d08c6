//! The Diffie-Hellman ratchet: the per-epoch key pair, the remote public
//! key it is combined with, and the transition that consumes one epoch's
//! state and derives the next epoch's root key and both chain keys.

use vstd::prelude::*;

use crate::chain_key::{ChainKey, RemoteChainKey};
use crate::crypto::{random_bytes, x25519, x25519_base, x25519_base_of, x25519_of};
use crate::root_key::{root_advance_of, RootKey};

verus! {

/// The ephemeral secret scalar of one ratchet epoch, with its public
/// point derived on demand. Generated fresh for every epoch and never
/// combined with more than one remote key observed after it.
pub struct RatchetKey {
    secret: [u8; 32],
}

/// An X25519 shared secret, handed on to key derivation.
pub struct SharedSecret {
    bytes: [u8; 32],
}

impl SharedSecret {
    /// The shared-secret bytes, as a spec value.
    pub closed spec fn bytes_spec(&self) -> Seq<u8> {
        self.bytes@
    }

    /// The 32 bytes of the shared secret.
    pub fn as_bytes(&self) -> (r: &[u8; 32])
        ensures
            r@ == self.bytes_spec(),
    {
        &self.bytes
    }
}

impl RatchetKey {
    /// The secret scalar, as a spec value.
    pub closed spec fn secret_spec(&self) -> Seq<u8> {
        self.secret@
    }

    /// Samples a fresh secret from the secure random source.
    pub fn new() -> Self {
        RatchetKey { secret: random_bytes() }
    }

    /// Wraps fixed secret bytes; for deterministic, test-only material.
    pub fn from_bytes(bytes: [u8; 32]) -> (r: Self)
        ensures
            r.secret_spec() == bytes@,
    {
        RatchetKey { secret: bytes }
    }

    pub(crate) fn secret_bytes(&self) -> (r: &[u8; 32])
        ensures
            r@ == self.secret_spec(),
    {
        &self.secret
    }

    /// The X25519 shared secret with a remote public key. Degenerate
    /// (low-order) remote points are accepted under the convention of
    /// the underlying curve library and yield its all-zero output; the
    /// call itself never fails.
    pub fn diffie_hellman(&self, other: &RemoteRatchetKey) -> (r: SharedSecret)
        ensures
            r.bytes_spec() == x25519_of(self.secret_spec(), other.key_spec()),
    {
        SharedSecret { bytes: x25519(&self.secret, other.as_bytes()) }
    }

    /// The public point of this key pair.
    pub fn public_key(&self) -> (r: RatchetPublicKey)
        ensures
            r.key_spec() == x25519_base_of(self.secret_spec()),
    {
        RatchetPublicKey { key: x25519_base(&self.secret) }
    }
}

impl Drop for RatchetKey {
    /// The epoch's secret scalar is overwritten with zeros when the key
    /// pair is destroyed.
    fn drop(&mut self)
        opens_invariants none
        no_unwind
    {
        crate::wipe_key(&mut self.secret);
    }
}

impl Drop for SharedSecret {
    /// The shared secret is overwritten with zeros once consumed.
    fn drop(&mut self)
        opens_invariants none
        no_unwind
    {
        crate::wipe_key(&mut self.bytes);
    }
}

/// The public half of an own ratchet key pair, in its fixed 32-byte
/// encoding.
#[derive(Debug)]
pub struct RatchetPublicKey {
    key: [u8; 32],
}

impl RatchetPublicKey {
    /// The public-point bytes, as a spec value.
    pub closed spec fn key_spec(&self) -> Seq<u8> {
        self.key@
    }

    /// The fixed 32-byte encoding.
    pub fn as_bytes(&self) -> (r: &[u8])
        ensures
            r@ == self.key_spec(),
    {
        self.key.as_slice()
    }

    /// The encoding as an owned vector.
    pub fn to_vec(&self) -> (r: Vec<u8>)
        ensures
            r@ == self.key_spec(),
    {
        vstd::slice::slice_to_vec(self.key.as_slice())
    }
}

impl From<[u8; 32]> for RatchetPublicKey {
    fn from(bytes: [u8; 32]) -> (r: Self) {
        RatchetPublicKey { key: bytes }
    }
}

impl vstd::std_specs::convert::FromSpecImpl<[u8; 32]> for RatchetPublicKey {
    open spec fn obeys_from_spec() -> bool {
        true
    }

    closed spec fn from_spec(bytes: [u8; 32]) -> Self {
        RatchetPublicKey { key: bytes }
    }
}

/// What conversion from bytes means: the converted key holds the bytes.
pub broadcast proof fn lemma_public_key_from_bytes(bytes: [u8; 32])
    ensures
        (#[trigger] <RatchetPublicKey as vstd::std_specs::convert::FromSpec<
            [u8; 32],
        >>::from_spec(bytes)).key_spec() == bytes@,
{
}

/// A remote ratchet public key supplied by the peer: immutable once
/// constructed, compared by byte equality.
#[derive(Debug, Clone, Hash, PartialEq)]
pub struct RemoteRatchetKey {
    key: [u8; 32],
}

impl RemoteRatchetKey {
    /// The public-point bytes, as a spec value.
    pub closed spec fn key_spec(&self) -> Seq<u8> {
        self.key@
    }

    /// The fixed 32-byte encoding.
    pub fn as_bytes(&self) -> (r: &[u8; 32])
        ensures
            r@ == self.key_spec(),
    {
        &self.key
    }
}

impl From<[u8; 32]> for RemoteRatchetKey {
    fn from(bytes: [u8; 32]) -> (r: Self) {
        RemoteRatchetKey { key: bytes }
    }
}

impl vstd::std_specs::convert::FromSpecImpl<[u8; 32]> for RemoteRatchetKey {
    open spec fn obeys_from_spec() -> bool {
        true
    }

    closed spec fn from_spec(bytes: [u8; 32]) -> Self {
        RemoteRatchetKey { key: bytes }
    }
}

/// What conversion from bytes means: the converted key holds the bytes.
pub broadcast proof fn lemma_remote_key_from_bytes(bytes: [u8; 32])
    ensures
        (#[trigger] <RemoteRatchetKey as vstd::std_specs::convert::FromSpec<
            [u8; 32],
        >>::from_spec(bytes)).key_spec() == bytes@,
{
}

/// The state of one ratchet epoch: the current root key and the own
/// ratchet key pair. Advancing consumes it; the old epoch's secret
/// material is dropped and never reused.
pub struct Ratchet {
    root_key: RootKey,
    ratchet_key: RatchetKey,
}

impl Ratchet {
    /// The current root key material, as a spec value.
    pub closed spec fn root_spec(&self) -> Seq<u8> {
        self.root_key.key_spec()
    }

    /// The current own ratchet secret, as a spec value.
    pub closed spec fn ratchet_key_spec(&self) -> Seq<u8> {
        self.ratchet_key.secret_spec()
    }

    /// A new epoch from a root key, with a freshly sampled key pair.
    pub fn new(root_key: RootKey) -> (r: Self)
        ensures
            r.root_spec() == root_key.key_spec(),
    {
        let ratchet_key = RatchetKey::new();
        Ratchet { root_key, ratchet_key }
    }

    /// A new epoch from a root key and a given key pair.
    pub fn new_with_ratchet_key(root_key: RootKey, ratchet_key: RatchetKey) -> (r: Self)
        ensures
            r.root_spec() == root_key.key_spec(),
            r.ratchet_key_spec() == ratchet_key.secret_spec(),
    {
        Ratchet { root_key, ratchet_key }
    }

    /// The own ratchet key pair of this epoch.
    pub fn ratchet_key(&self) -> (r: &RatchetKey)
        ensures
            r.secret_spec() == self.ratchet_key_spec(),
    {
        &self.ratchet_key
    }

    /// One full ratchet transition on a newly observed remote key. The
    /// receiving chain is derived first, from the old epoch's own secret
    /// and the remote key; only then is a fresh key pair generated and
    /// combined with the same remote key to derive the new root key and
    /// the sending chain. Consumes the epoch: the old secret must not be
    /// used again.
    pub fn advance(self, remote_key: RemoteRatchetKey) -> (r: (
        Ratchet,
        ChainKey,
        RemoteRatchet,
        RemoteChainKey,
    ))
        ensures
            ({
                let okm1 = root_advance_of(
                    self.root_spec(),
                    x25519_of(self.ratchet_key_spec(), remote_key.key_spec()),
                );
                let okm2 = root_advance_of(
                    okm1.subrange(0, 32),
                    x25519_of(r.0.ratchet_key_spec(), remote_key.key_spec()),
                );
                &&& r.3.key_spec() == okm1.subrange(32, 64)
                &&& r.3.index_spec() == 0
                &&& r.0.root_spec() == okm2.subrange(0, 32)
                &&& r.1.key_spec() == okm2.subrange(32, 64)
                &&& r.1.index_spec() == 0
                &&& r.2.key_spec() == remote_key.key_spec()
            }),
    {
        let (remote_root_key, remote_chain_key) = self.root_key.advance(
            &self.ratchet_key,
            &remote_key,
        );
        let (root_key, chain_key, ratchet_key) = remote_root_key.advance(&remote_key);
        let remote_ratchet = RemoteRatchet::new(remote_key);
        let new_ratchet = Ratchet::new_with_ratchet_key(root_key, ratchet_key);
        (new_ratchet, chain_key, remote_ratchet, remote_chain_key)
    }
}

/// The last-accepted remote ratchet key of the current receiving epoch,
/// kept to tell a repeated key from one that needs a new ratchet step.
#[derive(Debug, Clone, Hash)]
pub struct RemoteRatchet {
    key: RemoteRatchetKey,
}

impl RemoteRatchet {
    /// The tracked remote key bytes, as a spec value.
    pub closed spec fn key_spec(&self) -> Seq<u8> {
        self.key.key_spec()
    }

    /// Starts tracking a remote ratchet key.
    pub fn new(remote_ratchet_key: RemoteRatchetKey) -> (r: Self)
        ensures
            r.key_spec() == remote_ratchet_key.key_spec(),
    {
        RemoteRatchet { key: remote_ratchet_key }
    }

    /// Whether `remote_key` is byte-for-byte the key this receiving
    /// epoch was advanced to — true exactly when the incoming message
    /// reuses the current receiving chain.
    pub fn belongs_to(&self, remote_key: &RemoteRatchetKey) -> (r: bool)
        ensures
            r == (self.key_spec() == remote_key.key_spec()),
    {
        let a = self.key.as_bytes();
        let b = remote_key.as_bytes();
        let mut j: usize = 0;
        while j < 32
            invariant
                j <= 32,
                a@ == self.key_spec(),
                b@ == remote_key.key_spec(),
                forall|k: int| 0 <= k < j ==> a@[k] == b@[k],
            decreases 32 - j,
        {
            if a[j] != b[j] {
                proof {
                    assert(self.key_spec()[j as int] != remote_key.key_spec()[j as int]);
                }
                return false;
            }
            j = j + 1;
        }
        proof {
            assert(self.key_spec() =~= remote_key.key_spec());
        }
        true
    }
}

} // verus!
