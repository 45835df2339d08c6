use vodozemac::messages::{Message, MessageType, OlmMessage, PreKeyMessage};
use vodozemac::DecodeError;

/// A reference pre-key envelope body from an interoperability fixture.
const REF_BODY: &str = "AwoghAEuxPZ+w7M3pgUae4tDNiggUpOsQ/zci457VAtiAEYSIO3xOKRDBW\
                        KicIfxjSmYCYZ9DD4RMLjvvclbMlE5yIEWGiApLrCr853CKlPpW4Bi7S8y\
                        kRcejJ0lq7AfYLXKCjKdHSJPAwoghw3+P+cajhWj9Qzp5g87h+tbpiuh5w\
                        EaeUppqmWqug4QASIgRhZ2cgZcIWQbIa23R7U4y1Mo1R/tLCaMU+xjzRV5\
                        smGsCrJ6AHwktg";

const REF_CIPHERTEXT: [u8; 32] = [
    0x46, 0x16, 0x76, 0x72, 0x06, 0x5c, 0x21, 0x64, 0x1b, 0x21, 0xad, 0xb7, 0x47, 0xb5, 0x38,
    0xcb, 0x53, 0x28, 0xd5, 0x1f, 0xed, 0x2c, 0x26, 0x8c, 0x53, 0xec, 0x63, 0xcd, 0x15, 0x79,
    0xb2, 0x61,
];

fn sample_message() -> Message {
    Message {
        ratchet_key: [7u8; 32],
        index: 300,
        ciphertext: vec![1, 2, 3, 4, 5, 6, 7, 8, 9, 10],
        mac: [0xaa; 8],
    }
}

fn sample_pre_key_message() -> PreKeyMessage {
    PreKeyMessage {
        one_time_key: [1u8; 32],
        base_key: [2u8; 32],
        identity_key: [3u8; 32],
        message: sample_message(),
    }
}

#[test]
fn message_type_from_usize() {
    assert_eq!(
        MessageType::try_from(0),
        Ok(MessageType::PreKey),
        "0 should denote a pre-key Olm message"
    );
    assert_eq!(
        MessageType::try_from(1),
        Ok(MessageType::Normal),
        "1 should denote a normal Olm message"
    );
    assert!(
        MessageType::try_from(2).is_err(),
        "2 should be recognized as an unknown Olm message type"
    );
}

#[test]
fn olm_message_from_json() {
    let message = OlmMessage::from_parts(0, REF_BODY).expect("the reference body should decode");
    let (message_type, body) = message.to_parts();
    assert_eq!(message_type, 0);
    assert_eq!(body, REF_BODY, "The serialization cycle isn't a noop");
}

#[test]
fn reference_pre_key_envelope() {
    let message = OlmMessage::from_parts(0, REF_BODY).expect("the reference body should decode");
    assert_eq!(message.message_type(), MessageType::PreKey);
    assert_eq!(message.ciphertext(), &REF_CIPHERTEXT[..]);
    let (message_type, body) = message.to_parts();
    assert_eq!(message_type, 0);
    assert_eq!(body, REF_BODY);
}

#[test]
fn round_trip_normal_message() {
    let m = OlmMessage::Normal(sample_message());
    let (t, body) = m.clone().to_parts();
    assert_eq!(t, 1);
    let back = OlmMessage::from_parts(t, &body).expect("a freshly encoded body should decode");
    assert_eq!(back, m);
}

#[test]
fn round_trip_pre_key_message() {
    let m = OlmMessage::PreKey(sample_pre_key_message());
    let (t, body) = m.clone().to_parts();
    assert_eq!(t, 0);
    let back = OlmMessage::from_parts(t, &body).expect("a freshly encoded body should decode");
    assert_eq!(back, m);
}

#[test]
fn type_dispatch() {
    assert_eq!(
        OlmMessage::from_parts(2, REF_BODY),
        Err(DecodeError::MessageType(2)),
        "2 must be rejected whatever the body holds"
    );
    assert_eq!(OlmMessage::from_parts(7, ""), Err(DecodeError::MessageType(7)));
    match OlmMessage::from_parts(0, REF_BODY) {
        Ok(OlmMessage::PreKey(_)) => {}
        other => panic!("type 0 must decode to a pre-key message, got {other:?}"),
    }
}

#[test]
fn base64_errors() {
    assert_eq!(OlmMessage::from_parts(1, "!!!!"), Err(DecodeError::Base64));
    // a length of the form 4k + 1 is never produced by the encoder
    assert_eq!(OlmMessage::from_parts(1, "AAAAA"), Err(DecodeError::Base64));
    // non-zero trailing bits are rejected
    assert_eq!(OlmMessage::from_parts(1, "AB"), Err(DecodeError::Base64));
}

#[test]
fn truncated_and_invalid_structure() {
    // "Aw" is the version byte 3 alone
    assert_eq!(OlmMessage::from_parts(1, "Aw"), Err(DecodeError::Truncated));
    // "BA" is the single byte 4: not the protocol version
    assert_eq!(OlmMessage::from_parts(1, "BA"), Err(DecodeError::InvalidStructure));
    assert_eq!(Message::from_bytes(&[]), Err(DecodeError::Truncated));
    assert_eq!(Message::from_bytes(&[3, 0x0a]), Err(DecodeError::Truncated));
    assert_eq!(Message::from_bytes(&[3, 0x0b, 0x20]), Err(DecodeError::InvalidStructure));
    assert_eq!(PreKeyMessage::from_bytes(&[3, 0x0a, 0x21]), Err(DecodeError::InvalidStructure));
}

#[test]
fn non_minimal_length_rejected() {
    let bytes = sample_message().to_bytes();
    // widen the index varint 0xac 0x02 (300) into 0xac 0x82 0x00
    let mut widened = Vec::new();
    widened.extend_from_slice(&bytes[..36]);
    assert_eq!(bytes[36], 0xac);
    assert_eq!(bytes[37], 0x02);
    widened.push(0xac);
    widened.push(0x82);
    widened.push(0x00);
    widened.extend_from_slice(&bytes[38..]);
    assert_eq!(Message::from_bytes(&widened), Err(DecodeError::InvalidStructure));
}

#[test]
fn flipped_text_never_yields_the_same_message() {
    let baseline =
        OlmMessage::from_parts(0, REF_BODY).expect("the reference body should decode");
    let body: Vec<u8> = REF_BODY.bytes().collect();
    for i in 0..body.len() {
        let mut flipped = body.clone();
        flipped[i] = if flipped[i] == b'A' { b'B' } else { b'A' };
        if flipped[i] == body[i] {
            continue;
        }
        let text = String::from_utf8(flipped).unwrap();
        match OlmMessage::from_parts(0, &text) {
            Ok(other) => assert_ne!(
                other, baseline,
                "a changed body must never decode to the same message (position {i})"
            ),
            Err(_) => {}
        }
    }
}

#[test]
fn flipped_binary_body_detected() {
    let bytes = sample_pre_key_message().to_bytes();
    for i in 0..bytes.len() {
        let mut flipped = bytes.clone();
        flipped[i] ^= 0x01;
        match PreKeyMessage::from_bytes(&flipped) {
            Ok(other) => assert_ne!(
                OlmMessage::PreKey(other),
                OlmMessage::PreKey(sample_pre_key_message()),
                "a changed binary body must never decode to the same message (position {i})"
            ),
            Err(_) => {}
        }
    }
}

#[test]
fn round_trip_empty_ciphertext() {
    let m = OlmMessage::Normal(Message {
        ratchet_key: [9u8; 32],
        index: 0,
        ciphertext: Vec::new(),
        mac: [0u8; 8],
    });
    let (t, body) = m.clone().to_parts();
    let back = OlmMessage::from_parts(t, &body).expect("an empty ciphertext is a valid body");
    assert_eq!(back, m);
    assert_eq!(back.ciphertext(), &[] as &[u8]);
}

#[test]
fn round_trip_large_index() {
    let m = OlmMessage::Normal(Message {
        ratchet_key: [9u8; 32],
        index: u64::MAX,
        ciphertext: vec![0xff],
        mac: [1u8; 8],
    });
    let (t, body) = m.clone().to_parts();
    let back = OlmMessage::from_parts(t, &body).expect("the largest index must round-trip");
    assert_eq!(back, m);
}
