//! The symmetric per-direction ratchets: a chain key advances by one
//! HMAC step per message, yielding a single-use message key and strictly
//! increasing its index. The step is one-way — the previous chain key
//! cannot be recovered from the next one.

use vstd::prelude::*;

use crate::crypto::{hmac_sha256, hmac_sha256_of};

verus! {

/// The single-byte domain separator that derives a message key.
pub const MESSAGE_KEY_SEED: u8 = 1;

/// The single-byte domain separator that advances a chain key.
pub const ADVANCE_SEED: u8 = 2;

/// The chain key advanced once: the HMAC of the advance seed under it.
pub open spec fn chain_advance_of(key: Seq<u8>) -> Seq<u8> {
    hmac_sha256_of(key, seq![ADVANCE_SEED])
}

/// The message key a chain key yields: the HMAC of the message-key seed
/// under it.
pub open spec fn message_key_of(key: Seq<u8>) -> Seq<u8> {
    hmac_sha256_of(key, seq![MESSAGE_KEY_SEED])
}

/// A single-use key for one message, with its index in the chain.
pub struct MessageKey {
    key: [u8; 32],
    index: u64,
}

impl MessageKey {
    /// The key material, as a spec value.
    pub closed spec fn key_spec(&self) -> Seq<u8> {
        self.key@
    }

    /// The index, as a spec value.
    pub closed spec fn index_spec(&self) -> u64 {
        self.index
    }

    /// The 32 bytes of key material.
    pub fn as_bytes(&self) -> (r: &[u8; 32])
        ensures
            r@ == self.key_spec(),
    {
        &self.key
    }

    /// The index of the message this key encrypts.
    pub fn index(&self) -> (r: u64)
        ensures
            r == self.index_spec(),
    {
        self.index
    }
}

impl Drop for MessageKey {
    /// The single-use key material is overwritten with zeros once the
    /// message it encrypts is handled.
    fn drop(&mut self)
        opens_invariants none
        no_unwind
    {
        crate::wipe_key(&mut self.key);
    }
}

/// The sending-chain key: 32 bytes of key material and the index of the
/// next message key it will yield.
pub struct ChainKey {
    key: [u8; 32],
    index: u64,
}

impl ChainKey {
    /// The key material, as a spec value.
    pub closed spec fn key_spec(&self) -> Seq<u8> {
        self.key@
    }

    /// The index, as a spec value.
    pub closed spec fn index_spec(&self) -> u64 {
        self.index
    }

    /// A fresh chain key starting at index 0.
    pub fn new(key: [u8; 32]) -> (r: Self)
        ensures
            r.key_spec() == key@,
            r.index_spec() == 0,
    {
        ChainKey { key, index: 0 }
    }

    /// The 32 bytes of key material.
    pub fn as_bytes(&self) -> (r: &[u8; 32])
        ensures
            r@ == self.key_spec(),
    {
        &self.key
    }

    /// The index of the next message key.
    pub fn index(&self) -> (r: u64)
        ensures
            r == self.index_spec(),
    {
        self.index
    }

    /// One ratchet step: yields the message key at the current index,
    /// replaces the chain key by its one-way advance, and increases the
    /// index by exactly one.
    pub fn advance(&mut self) -> (r: MessageKey)
        requires
            old(self).index_spec() < u64::MAX,
        ensures
            r.key_spec() == message_key_of(old(self).key_spec()),
            r.index_spec() == old(self).index_spec(),
            final(self).key_spec() == chain_advance_of(old(self).key_spec()),
            final(self).index_spec() == old(self).index_spec() + 1,
    {
        let message_seed: [u8; 1] = [MESSAGE_KEY_SEED];
        let advance_seed: [u8; 1] = [ADVANCE_SEED];
        proof {
            assert(message_seed@ =~= seq![MESSAGE_KEY_SEED]);
            assert(advance_seed@ =~= seq![ADVANCE_SEED]);
        }
        let message_key = hmac_sha256(self.key.as_slice(), message_seed.as_slice());
        let r = MessageKey { key: message_key, index: self.index };
        self.key = hmac_sha256(self.key.as_slice(), advance_seed.as_slice());
        self.index = self.index + 1;
        r
    }
}

impl Drop for ChainKey {
    /// The chain key material is overwritten with zeros when the chain
    /// is discarded.
    fn drop(&mut self)
        opens_invariants none
        no_unwind
    {
        crate::wipe_key(&mut self.key);
    }
}

/// The receiving-chain key: advanced in step with the peer's sending
/// chain, with its own independent index.
pub struct RemoteChainKey {
    key: [u8; 32],
    index: u64,
}

impl RemoteChainKey {
    /// The key material, as a spec value.
    pub closed spec fn key_spec(&self) -> Seq<u8> {
        self.key@
    }

    /// The index, as a spec value.
    pub closed spec fn index_spec(&self) -> u64 {
        self.index
    }

    /// A fresh receiving-chain key starting at index 0.
    pub fn new(key: [u8; 32]) -> (r: Self)
        ensures
            r.key_spec() == key@,
            r.index_spec() == 0,
    {
        RemoteChainKey { key, index: 0 }
    }

    /// The 32 bytes of key material.
    pub fn as_bytes(&self) -> (r: &[u8; 32])
        ensures
            r@ == self.key_spec(),
    {
        &self.key
    }

    /// The index of the next message key.
    pub fn index(&self) -> (r: u64)
        ensures
            r == self.index_spec(),
    {
        self.index
    }

    /// One ratchet step of the receiving chain, exactly as
    /// `ChainKey::advance`.
    pub fn advance(&mut self) -> (r: MessageKey)
        requires
            old(self).index_spec() < u64::MAX,
        ensures
            r.key_spec() == message_key_of(old(self).key_spec()),
            r.index_spec() == old(self).index_spec(),
            final(self).key_spec() == chain_advance_of(old(self).key_spec()),
            final(self).index_spec() == old(self).index_spec() + 1,
    {
        let message_seed: [u8; 1] = [MESSAGE_KEY_SEED];
        let advance_seed: [u8; 1] = [ADVANCE_SEED];
        proof {
            assert(message_seed@ =~= seq![MESSAGE_KEY_SEED]);
            assert(advance_seed@ =~= seq![ADVANCE_SEED]);
        }
        let message_key = hmac_sha256(self.key.as_slice(), message_seed.as_slice());
        let r = MessageKey { key: message_key, index: self.index };
        self.key = hmac_sha256(self.key.as_slice(), advance_seed.as_slice());
        self.index = self.index + 1;
        r
    }
}

impl Drop for RemoteChainKey {
    /// The chain key material is overwritten with zeros when the chain
    /// is discarded.
    fn drop(&mut self)
        opens_invariants none
        no_unwind
    {
        crate::wipe_key(&mut self.key);
    }
}

} // verus!
