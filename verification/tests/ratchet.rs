use vodozemac::chain_key::ChainKey;
use vodozemac::ratchet::{Ratchet, RatchetKey, RemoteRatchet, RemoteRatchetKey};
use vodozemac::root_key::RootKey;

// The X25519 key-exchange vectors of RFC 7748, section 6.1.
const ALICE_SECRET: [u8; 32] = [
    0x77, 0x07, 0x6d, 0x0a, 0x73, 0x18, 0xa5, 0x7d, 0x3c, 0x16, 0xc1, 0x72, 0x51, 0xb2, 0x66,
    0x45, 0xdf, 0x4c, 0x2f, 0x87, 0xeb, 0xc0, 0x99, 0x2a, 0xb1, 0x77, 0xfb, 0xa5, 0x1d, 0xb9,
    0x2c, 0x2a,
];
const ALICE_PUBLIC: [u8; 32] = [
    0x85, 0x20, 0xf0, 0x09, 0x89, 0x30, 0xa7, 0x54, 0x74, 0x8b, 0x7d, 0xdc, 0xb4, 0x3e, 0xf7,
    0x5a, 0x0d, 0xbf, 0x3a, 0x0d, 0x26, 0x38, 0x1a, 0xf4, 0xeb, 0xa4, 0xa9, 0x8e, 0xaa, 0x9b,
    0x4e, 0x6a,
];
const BOB_SECRET: [u8; 32] = [
    0x5d, 0xab, 0x08, 0x7e, 0x62, 0x4a, 0x8a, 0x4b, 0x79, 0xe1, 0x7f, 0x8b, 0x83, 0x80, 0x0e,
    0xe6, 0x6f, 0x3b, 0xb1, 0x29, 0x26, 0x18, 0xb6, 0xfd, 0x1c, 0x2f, 0x8b, 0x27, 0xff, 0x88,
    0xe0, 0xeb,
];
const BOB_PUBLIC: [u8; 32] = [
    0xde, 0x9e, 0xdb, 0x7d, 0x7b, 0x7d, 0xc1, 0xb4, 0xd3, 0x5b, 0x61, 0xc2, 0xec, 0xe4, 0x35,
    0x37, 0x3f, 0x83, 0x43, 0xc8, 0x5b, 0x78, 0x67, 0x4d, 0xad, 0xfc, 0x7e, 0x14, 0x6f, 0x88,
    0x2b, 0x4f,
];
const SHARED: [u8; 32] = [
    0x4a, 0x5d, 0x9d, 0x5b, 0xa4, 0xce, 0x2d, 0xe1, 0x72, 0x8e, 0x3b, 0xf4, 0x80, 0x35, 0x0f,
    0x25, 0xe0, 0x7e, 0x21, 0xc9, 0x47, 0xd1, 0x9e, 0x33, 0x76, 0xf0, 0x9b, 0x3c, 0x1e, 0x16,
    0x17, 0x42,
];
const ROOT: [u8; 32] = [
    0x00, 0x01, 0x02, 0x03, 0x04, 0x05, 0x06, 0x07, 0x08, 0x09, 0x0a, 0x0b, 0x0c, 0x0d, 0x0e,
    0x0f, 0x10, 0x11, 0x12, 0x13, 0x14, 0x15, 0x16, 0x17, 0x18, 0x19, 0x1a, 0x1b, 0x1c, 0x1d,
    0x1e, 0x1f,
];
// HKDF-SHA-256(salt = ROOT, ikm = SHARED, info = "OLM_RATCHET"),
// computed with an independent implementation.
const NEXT_ROOT: [u8; 32] = [
    0x73, 0x17, 0x87, 0x4d, 0xdb, 0x80, 0x9b, 0x5d, 0xf0, 0x2c, 0x76, 0xd8, 0x01, 0x23, 0xfb,
    0xef, 0x11, 0x81, 0xac, 0x70, 0xc9, 0x33, 0xd3, 0xab, 0xf2, 0x38, 0x28, 0x4d, 0xb3, 0x40,
    0xe3, 0x61,
];
const CHAIN: [u8; 32] = [
    0xbc, 0x22, 0xeb, 0x61, 0x8e, 0x4b, 0x06, 0x45, 0xe6, 0xd1, 0x92, 0xc1, 0xdb, 0xd3, 0x0b,
    0x43, 0x3f, 0x69, 0x5e, 0x47, 0x1d, 0x32, 0xa4, 0xb4, 0x35, 0x9a, 0x68, 0x6f, 0xe9, 0x5c,
    0x05, 0x08,
];
// HMAC-SHA-256 chain steps over CHAIN, computed independently.
const MESSAGE_KEY_0: [u8; 32] = [
    0x93, 0xce, 0x03, 0xba, 0x72, 0xd4, 0x11, 0x83, 0x78, 0xd2, 0xf8, 0x9d, 0xa8, 0xdd, 0x1c,
    0x43, 0x68, 0x2c, 0xe1, 0x29, 0xe0, 0x62, 0xb4, 0x3d, 0x2f, 0x29, 0xc9, 0x4f, 0x7d, 0x27,
    0x05, 0x50,
];
const CHAIN_1: [u8; 32] = [
    0xff, 0xc4, 0x29, 0xbe, 0x75, 0xb9, 0xb4, 0x19, 0x48, 0x49, 0x68, 0xe2, 0x5e, 0xe7, 0x19,
    0xe8, 0xa9, 0xc6, 0x27, 0x48, 0xea, 0xe5, 0xf3, 0xf7, 0x70, 0x16, 0x2a, 0xdd, 0x39, 0xe5,
    0x26, 0xde,
];
const MESSAGE_KEY_1: [u8; 32] = [
    0xed, 0x14, 0x69, 0x79, 0xab, 0x8a, 0xd8, 0x6a, 0x40, 0x94, 0x7a, 0x35, 0x65, 0xbe, 0x1d,
    0xe3, 0x02, 0xa0, 0x68, 0xe1, 0xaa, 0xec, 0x31, 0x07, 0xd4, 0x59, 0xfd, 0xc1, 0xa4, 0xa0,
    0x3d, 0x92,
];

#[test]
fn diffie_hellman_vectors() {
    let alice = RatchetKey::from_bytes(ALICE_SECRET);
    let bob = RatchetKey::from_bytes(BOB_SECRET);
    assert_eq!(alice.public_key().as_bytes(), &ALICE_PUBLIC[..]);
    assert_eq!(bob.public_key().to_vec(), BOB_PUBLIC.to_vec());
    let k1 = alice.diffie_hellman(&RemoteRatchetKey::from(BOB_PUBLIC));
    let k2 = bob.diffie_hellman(&RemoteRatchetKey::from(ALICE_PUBLIC));
    assert_eq!(k1.as_bytes(), &SHARED);
    assert_eq!(k2.as_bytes(), &SHARED);
}

#[test]
fn degenerate_remote_key_convention() {
    // The all-zero point is low order; under the convention of the
    // underlying curve library the shared secret is all zeros rather
    // than an error.
    let alice = RatchetKey::from_bytes(ALICE_SECRET);
    let shared = alice.diffie_hellman(&RemoteRatchetKey::from([0u8; 32]));
    assert_eq!(shared.as_bytes(), &[0u8; 32]);
}

#[test]
fn known_answer_root_advance() {
    let root = RootKey::new(ROOT);
    let alice = RatchetKey::from_bytes(ALICE_SECRET);
    let (next_root, receiving_chain) = root.advance(&alice, &RemoteRatchetKey::from(BOB_PUBLIC));
    assert_eq!(next_root.as_bytes(), &NEXT_ROOT);
    assert_eq!(receiving_chain.as_bytes(), &CHAIN);
    assert_eq!(receiving_chain.index(), 0);

    // the peer derives the same pair from its own secret and our public key
    let root = RootKey::new(ROOT);
    let bob = RatchetKey::from_bytes(BOB_SECRET);
    let (next_root_b, receiving_chain_b) =
        root.advance(&bob, &RemoteRatchetKey::from(ALICE_PUBLIC));
    assert_eq!(next_root_b.as_bytes(), &NEXT_ROOT);
    assert_eq!(receiving_chain_b.as_bytes(), &CHAIN);
}

#[test]
fn full_ratchet_advance() {
    let alice = Ratchet::new_with_ratchet_key(
        RootKey::new(ROOT),
        RatchetKey::from_bytes(ALICE_SECRET),
    );
    let bob_key = RemoteRatchetKey::from(BOB_PUBLIC);
    let (next, sending_chain, remote_ratchet, receiving_chain) = alice.advance(bob_key);

    // the receiving chain comes from the old secret and the observed key
    assert_eq!(receiving_chain.as_bytes(), &CHAIN);
    assert_eq!(receiving_chain.index(), 0);
    assert_eq!(sending_chain.index(), 0);
    // the sending chain was derived from a fresh key pair, never the old one
    assert_ne!(sending_chain.as_bytes(), &CHAIN);
    assert_ne!(
        next.ratchet_key().public_key().to_vec(),
        ALICE_PUBLIC.to_vec(),
        "the advanced ratchet must hold a freshly sampled key pair"
    );
    // membership: the tracked key answers for itself and no other
    assert!(remote_ratchet.belongs_to(&RemoteRatchetKey::from(BOB_PUBLIC)));
    assert!(!remote_ratchet.belongs_to(&RemoteRatchetKey::from(ALICE_PUBLIC)));
}

#[test]
fn ratchet_non_reuse() {
    let make = || {
        Ratchet::new_with_ratchet_key(RootKey::new(ROOT), RatchetKey::from_bytes(ALICE_SECRET))
    };
    let (next_a, sending_a, _, receiving_a) = make().advance(RemoteRatchetKey::from(BOB_PUBLIC));
    let (next_b, sending_b, _, receiving_b) = make().advance(RemoteRatchetKey::from(BOB_PUBLIC));

    // the deterministic half agrees
    assert_eq!(receiving_a.as_bytes(), receiving_b.as_bytes());
    // the fresh own key pairs must never be equal
    assert_ne!(
        next_a.ratchet_key().public_key().to_vec(),
        next_b.ratchet_key().public_key().to_vec(),
        "two advances must sample distinct own key pairs"
    );
    assert_ne!(sending_a.as_bytes(), sending_b.as_bytes());
}

#[test]
fn membership_detects_repeated_key() {
    let watcher = RemoteRatchet::new(RemoteRatchetKey::from(BOB_PUBLIC));
    assert!(watcher.belongs_to(&RemoteRatchetKey::from(BOB_PUBLIC)));
    let mut other = BOB_PUBLIC;
    other[31] ^= 1;
    assert!(!watcher.belongs_to(&RemoteRatchetKey::from(other)));
}

#[test]
fn chain_forward_secrecy_structure() {
    let mut chain = ChainKey::new(CHAIN);
    assert_eq!(chain.index(), 0);
    let mk0 = chain.advance();
    assert_eq!(mk0.as_bytes(), &MESSAGE_KEY_0);
    assert_eq!(mk0.index(), 0);
    assert_eq!(chain.as_bytes(), &CHAIN_1);
    assert_eq!(chain.index(), 1);

    let mk1 = chain.advance();
    assert_eq!(mk1.as_bytes(), &MESSAGE_KEY_1);
    assert_eq!(mk1.index(), 1);
    assert_eq!(chain.index(), 2);

    // consecutive message keys differ, and no chain key equals any
    // message key it produced
    assert_ne!(mk0.as_bytes(), mk1.as_bytes());
    assert_ne!(chain.as_bytes(), mk0.as_bytes());
    assert_ne!(chain.as_bytes(), mk1.as_bytes());
    assert_ne!(&CHAIN_1, mk0.as_bytes());
    assert_ne!(&CHAIN_1, mk1.as_bytes());
}
