//! The per-epoch root keys. A root key is consumed exactly once: one
//! Diffie-Hellman output is fed, keyed by the current root key, through
//! HKDF-SHA-256 with the ratchet info string, and the 64 bytes that come
//! out are the next root key and a fresh chain key.

use vstd::prelude::*;

use crate::chain_key::{ChainKey, RemoteChainKey};
use crate::crypto::{hkdf_sha256_64, hkdf_sha256_64_of, x25519, x25519_of};
use crate::ratchet::{RatchetKey, RemoteRatchetKey};

verus! {

/// The HKDF info string that domain-separates the root-key advance.
pub open spec fn ratchet_info_spec() -> Seq<u8> {
    seq![79u8, 76u8, 77u8, 95u8, 82u8, 65u8, 84u8, 67u8, 72u8, 69u8, 84u8]  // "OLM_RATCHET"
}

fn ratchet_info() -> (r: Vec<u8>)
    ensures
        r@ == ratchet_info_spec(),
{
    let mut v: Vec<u8> = Vec::new();
    v.push(79);
    v.push(76);
    v.push(77);
    v.push(95);
    v.push(82);
    v.push(65);
    v.push(84);
    v.push(67);
    v.push(72);
    v.push(69);
    v.push(84);
    proof {
        assert(v@ =~= ratchet_info_spec());
    }
    v
}

/// The 64 bytes a root key and a Diffie-Hellman output derive: the next
/// root key (first half) and a chain key (second half).
pub open spec fn root_advance_of(root: Seq<u8>, dh: Seq<u8>) -> Seq<u8> {
    hkdf_sha256_64_of(root, dh, ratchet_info_spec())
}

fn split_half(okm: &[u8; 64], off: usize) -> (r: [u8; 32])
    requires
        off == 0 || off == 32,
    ensures
        r@ == okm@.subrange(off as int, off as int + 32),
{
    let mut r = [0u8; 32];
    let mut j: usize = 0;
    while j < 32
        invariant
            j <= 32,
            off + 32 <= 64,
            forall|k: int| 0 <= k < j ==> r@[k] == okm@[off + k],
        decreases 32 - j,
    {
        r[j] = okm[off + j];
        j = j + 1;
    }
    proof {
        assert(r@ =~= okm@.subrange(off as int, off as int + 32));
    }
    r
}

/// The root key of the current epoch, consumed to establish the
/// receiving chain for a newly observed remote ratchet key.
pub struct RootKey {
    key: [u8; 32],
}

impl RootKey {
    /// The key material, as a spec value.
    pub closed spec fn key_spec(&self) -> Seq<u8> {
        self.key@
    }

    /// Wraps 32 bytes of symmetric key material as a root key.
    pub fn new(key: [u8; 32]) -> (r: Self)
        ensures
            r.key_spec() == key@,
    {
        RootKey { key }
    }

    /// The 32 bytes of key material, as the storage layer persists them.
    pub fn as_bytes(&self) -> (r: &[u8; 32])
        ensures
            r@ == self.key_spec(),
    {
        &self.key
    }

    /// The first half of a ratchet transition: combines our current
    /// ratchet secret with the peer's newly observed public key and
    /// derives the next (remote) root key and the receiving chain key.
    pub fn advance(&self, own_key: &RatchetKey, remote_key: &RemoteRatchetKey) -> (r: (
        RemoteRootKey,
        RemoteChainKey,
    ))
        ensures
            ({
                let okm = root_advance_of(
                    self.key_spec(),
                    x25519_of(own_key.secret_spec(), remote_key.key_spec()),
                );
                &&& r.0.key_spec() == okm.subrange(0, 32)
                &&& r.1.key_spec() == okm.subrange(32, 64)
                &&& r.1.index_spec() == 0
            }),
    {
        let dh = x25519(own_key.secret_bytes(), remote_key.as_bytes());
        let info = ratchet_info();
        let okm = hkdf_sha256_64(self.key.as_slice(), dh.as_slice(), info.as_slice());
        let root = split_half(&okm, 0);
        let chain = split_half(&okm, 32);
        (RemoteRootKey::new(root), RemoteChainKey::new(chain))
    }
}

impl Drop for RootKey {
    /// The root key material is overwritten with zeros when the epoch
    /// that held it ends.
    fn drop(&mut self)
        opens_invariants none
        no_unwind
    {
        crate::wipe_key(&mut self.key);
    }
}

/// The intermediate root key a ratchet transition passes through,
/// consumed at once to derive the new epoch's sending chain.
pub struct RemoteRootKey {
    key: [u8; 32],
}

impl RemoteRootKey {
    /// The key material, as a spec value.
    pub closed spec fn key_spec(&self) -> Seq<u8> {
        self.key@
    }

    /// Wraps 32 bytes of symmetric key material.
    pub fn new(key: [u8; 32]) -> (r: Self)
        ensures
            r.key_spec() == key@,
    {
        RemoteRootKey { key }
    }

    /// The 32 bytes of key material.
    pub fn as_bytes(&self) -> (r: &[u8; 32])
        ensures
            r@ == self.key_spec(),
    {
        &self.key
    }

    /// The second half of a ratchet transition: generates a fresh own
    /// key pair, combines it with the same remote public key, and
    /// derives the new epoch's root key and the sending chain key.
    pub fn advance(&self, remote_key: &RemoteRatchetKey) -> (r: (RootKey, ChainKey, RatchetKey))
        ensures
            ({
                let okm = root_advance_of(
                    self.key_spec(),
                    x25519_of(r.2.secret_spec(), remote_key.key_spec()),
                );
                &&& r.0.key_spec() == okm.subrange(0, 32)
                &&& r.1.key_spec() == okm.subrange(32, 64)
                &&& r.1.index_spec() == 0
            }),
    {
        let ratchet_key = RatchetKey::new();
        let dh = x25519(ratchet_key.secret_bytes(), remote_key.as_bytes());
        let info = ratchet_info();
        let okm = hkdf_sha256_64(self.key.as_slice(), dh.as_slice(), info.as_slice());
        let root = split_half(&okm, 0);
        let chain = split_half(&okm, 32);
        (RootKey::new(root), ChainKey::new(chain), ratchet_key)
    }
}

impl Drop for RemoteRootKey {
    /// The intermediate root key material is overwritten with zeros
    /// once the transition completes.
    fn drop(&mut self)
        opens_invariants none
        no_unwind
    {
        crate::wipe_key(&mut self.key);
    }
}

} // verus!
