//! Unpadded base64 with the standard alphabet: the text form of every wire
//! envelope body. Decoding is strict: it rejects characters outside the
//! alphabet, a length that no encoding produces, and non-zero trailing bits,
//! so every byte sequence has exactly one text form.

use vstd::prelude::*;

verus! {

/// The alphabet byte that stands for a six-bit value.
pub open spec fn sextet_char(v: u8) -> u8 {
    if v < 26 {
        (v + 65) as u8  // 'A'..='Z'
    } else if v < 52 {
        (v + 71) as u8  // 'a'..='z'
    } else if v < 62 {
        (v - 4) as u8  // '0'..='9'
    } else if v == 62 {
        43u8  // '+'
    } else {
        47u8  // '/'
    }
}

/// The six-bit value of an alphabet byte, or `None` outside the alphabet.
pub open spec fn sextet_val(b: u8) -> Option<u8> {
    if 65 <= b && b <= 90 {
        Some((b - 65) as u8)
    } else if 97 <= b && b <= 122 {
        Some((b - 71) as u8)
    } else if 48 <= b && b <= 57 {
        Some((b + 4) as u8)
    } else if b == 43 {
        Some(62u8)
    } else if b == 47 {
        Some(63u8)
    } else {
        None
    }
}

/// The four alphabet bytes of a full three-byte group.
pub open spec fn enc3(b0: u8, b1: u8, b2: u8) -> Seq<u8> {
    seq![
        sextet_char(b0 >> 2),
        sextet_char(((b0 & 3) << 4) | (b1 >> 4)),
        sextet_char(((b1 & 15) << 2) | (b2 >> 6)),
        sextet_char(b2 & 63),
    ]
}

/// The three alphabet bytes of a trailing two-byte group.
pub open spec fn enc2(b0: u8, b1: u8) -> Seq<u8> {
    seq![
        sextet_char(b0 >> 2),
        sextet_char(((b0 & 3) << 4) | (b1 >> 4)),
        sextet_char((b1 & 15) << 2),
    ]
}

/// The two alphabet bytes of a trailing one-byte group.
pub open spec fn enc1(b0: u8) -> Seq<u8> {
    seq![sextet_char(b0 >> 2), sextet_char((b0 & 3) << 4)]
}

/// Unpadded base64 encoding of a byte sequence.
pub open spec fn b64_encode(bytes: Seq<u8>) -> Seq<u8>
    decreases bytes.len(),
{
    if bytes.len() == 0 {
        Seq::<u8>::empty()
    } else if bytes.len() == 1 {
        enc1(bytes[0])
    } else if bytes.len() == 2 {
        enc2(bytes[0], bytes[1])
    } else {
        enc3(bytes[0], bytes[1], bytes[2]) + b64_encode(bytes.skip(3))
    }
}

/// The first byte carried by two sextets.
pub open spec fn dec_byte0(d0: u8, d1: u8) -> u8 {
    (d0 << 2) | (d1 >> 4)
}

/// The second byte carried by the second and third sextet.
pub open spec fn dec_byte1(d1: u8, d2: u8) -> u8 {
    (d1 << 4) | (d2 >> 2)
}

/// The third byte carried by the third and fourth sextet.
pub open spec fn dec_byte2(d2: u8, d3: u8) -> u8 {
    (d2 << 6) | d3
}

/// Strict unpadded base64 decoding: `None` on any byte outside the
/// alphabet, on a length of the form 4k + 1, and on non-zero trailing bits.
pub open spec fn b64_decode(s: Seq<u8>) -> Option<Seq<u8>>
    decreases s.len(),
{
    if s.len() == 0 {
        Some(Seq::<u8>::empty())
    } else if s.len() == 1 {
        None
    } else if s.len() == 2 {
        match (sextet_val(s[0]), sextet_val(s[1])) {
            (Some(d0), Some(d1)) => if d1 & 15 == 0 {
                Some(seq![dec_byte0(d0, d1)])
            } else {
                None
            },
            _ => None,
        }
    } else if s.len() == 3 {
        match (sextet_val(s[0]), sextet_val(s[1]), sextet_val(s[2])) {
            (Some(d0), Some(d1), Some(d2)) => if d2 & 3 == 0 {
                Some(seq![dec_byte0(d0, d1), dec_byte1(d1, d2)])
            } else {
                None
            },
            _ => None,
        }
    } else {
        match (sextet_val(s[0]), sextet_val(s[1]), sextet_val(s[2]), sextet_val(s[3])) {
            (Some(d0), Some(d1), Some(d2), Some(d3)) => match b64_decode(s.skip(4)) {
                Some(rest) => Some(
                    seq![dec_byte0(d0, d1), dec_byte1(d1, d2), dec_byte2(d2, d3)] + rest,
                ),
                None => None,
            },
            _ => None,
        }
    }
}

/// Every six-bit value round-trips through its alphabet byte.
pub proof fn lemma_sextet_char_val(v: u8)
    requires
        v < 64,
    ensures
        sextet_val(sextet_char(v)) == Some(v),
{
}

/// An alphabet byte round-trips through its six-bit value.
pub proof fn lemma_sextet_val_char(b: u8)
    ensures
        sextet_val(b) matches Some(d) ==> d < 64 && sextet_char(d) == b,
{
}

proof fn lemma_enc3_bits(b0: u8, b1: u8, b2: u8)
    ensures
        b0 >> 2 < 64,
        ((b0 & 3) << 4) | (b1 >> 4) < 64,
        ((b1 & 15) << 2) | (b2 >> 6) < 64,
        b2 & 63 < 64,
        dec_byte0(b0 >> 2, ((b0 & 3) << 4) | (b1 >> 4)) == b0,
        dec_byte1(((b0 & 3) << 4) | (b1 >> 4), ((b1 & 15) << 2) | (b2 >> 6)) == b1,
        dec_byte2(((b1 & 15) << 2) | (b2 >> 6), b2 & 63) == b2,
{
    assert(b0 >> 2 < 64 && ((b0 & 3) << 4) | (b1 >> 4) < 64 && ((b1 & 15) << 2) | (b2 >> 6) < 64
        && b2 & 63 < 64 && ((b0 >> 2) << 2) | ((((b0 & 3) << 4) | (b1 >> 4)) >> 4) == b0 && (((
        (b0 & 3) << 4) | (b1 >> 4)) << 4) | ((((b1 & 15) << 2) | (b2 >> 6)) >> 2) == b1 && (((
        (b1 & 15) << 2) | (b2 >> 6)) << 6) | (b2 & 63) == b2) by (bit_vector);
}

proof fn lemma_enc2_bits(b0: u8, b1: u8)
    ensures
        b0 >> 2 < 64,
        ((b0 & 3) << 4) | (b1 >> 4) < 64,
        (b1 & 15) << 2 < 64,
        ((b1 & 15) << 2) & 3 == 0,
        dec_byte0(b0 >> 2, ((b0 & 3) << 4) | (b1 >> 4)) == b0,
        dec_byte1(((b0 & 3) << 4) | (b1 >> 4), (b1 & 15) << 2) == b1,
{
    assert(b0 >> 2 < 64 && ((b0 & 3) << 4) | (b1 >> 4) < 64 && (b1 & 15) << 2 < 64 && ((b1 & 15)
        << 2) & 3 == 0 && ((b0 >> 2) << 2) | ((((b0 & 3) << 4) | (b1 >> 4)) >> 4) == b0 && ((((b0
        & 3) << 4) | (b1 >> 4)) << 4) | (((b1 & 15) << 2) >> 2) == b1) by (bit_vector);
}

proof fn lemma_enc1_bits(b0: u8)
    ensures
        b0 >> 2 < 64,
        (b0 & 3) << 4 < 64,
        ((b0 & 3) << 4) & 15 == 0,
        dec_byte0(b0 >> 2, (b0 & 3) << 4) == b0,
{
    assert(b0 >> 2 < 64 && (b0 & 3) << 4 < 64 && ((b0 & 3) << 4) & 15 == 0 && ((b0 >> 2) << 2) | ((
    (b0 & 3) << 4) >> 4) == b0) by (bit_vector);
}

proof fn lemma_dec3_bits(d0: u8, d1: u8, d2: u8, d3: u8)
    requires
        d0 < 64,
        d1 < 64,
        d2 < 64,
        d3 < 64,
    ensures
        dec_byte0(d0, d1) >> 2 == d0,
        ((dec_byte0(d0, d1) & 3) << 4) | (dec_byte1(d1, d2) >> 4) == d1,
        ((dec_byte1(d1, d2) & 15) << 2) | (dec_byte2(d2, d3) >> 6) == d2,
        dec_byte2(d2, d3) & 63 == d3,
{
    assert(d0 < 64 && d1 < 64 && d2 < 64 && d3 < 64 ==> ((d0 << 2) | (d1 >> 4)) >> 2 == d0 && ((((
    d0 << 2) | (d1 >> 4)) & 3) << 4) | (((d1 << 4) | (d2 >> 2)) >> 4) == d1 && ((((d1 << 4) | (d2
        >> 2)) & 15) << 2) | (((d2 << 6) | d3) >> 6) == d2 && ((d2 << 6) | d3) & 63 == d3)
        by (bit_vector);
}

proof fn lemma_dec2_bits(d0: u8, d1: u8, d2: u8)
    requires
        d0 < 64,
        d1 < 64,
        d2 < 64,
        d2 & 3 == 0,
    ensures
        dec_byte0(d0, d1) >> 2 == d0,
        ((dec_byte0(d0, d1) & 3) << 4) | (dec_byte1(d1, d2) >> 4) == d1,
        (dec_byte1(d1, d2) & 15) << 2 == d2,
{
    assert(d0 < 64 && d1 < 64 && d2 < 64 && d2 & 3 == 0 ==> ((d0 << 2) | (d1 >> 4)) >> 2 == d0 && (
    (((d0 << 2) | (d1 >> 4)) & 3) << 4) | (((d1 << 4) | (d2 >> 2)) >> 4) == d1 && ((((d1 << 4) | (
    d2 >> 2)) & 15) << 2) == d2) by (bit_vector);
}

proof fn lemma_dec1_bits(d0: u8, d1: u8)
    requires
        d0 < 64,
        d1 < 64,
        d1 & 15 == 0,
    ensures
        dec_byte0(d0, d1) >> 2 == d0,
        (dec_byte0(d0, d1) & 3) << 4 == d1,
{
    assert(d0 < 64 && d1 < 64 && d1 & 15 == 0 ==> ((d0 << 2) | (d1 >> 4)) >> 2 == d0 && (((d0 << 2)
        | (d1 >> 4)) & 3) << 4 == d1) by (bit_vector);
}

/// Every byte of an encoding is ASCII.
pub proof fn lemma_b64_encode_ascii(bytes: Seq<u8>)
    ensures
        forall|i: int| 0 <= i < b64_encode(bytes).len() ==> b64_encode(bytes)[i] < 128,
    decreases bytes.len(),
{
    if bytes.len() == 0 {
    } else if bytes.len() <= 2 {
    } else {
        lemma_b64_encode_ascii(bytes.skip(3));
        assert forall|i: int| 0 <= i < b64_encode(bytes).len() implies b64_encode(bytes)[i]
            < 128 by {
            if i >= 4 {
                assert(b64_encode(bytes)[i] == b64_encode(bytes.skip(3))[i - 4]);
            }
        }
    }
}

/// Decoding inverts encoding: the round trip of every byte sequence.
pub proof fn lemma_b64_round_trip(bytes: Seq<u8>)
    ensures
        b64_decode(b64_encode(bytes)) == Some(bytes),
    decreases bytes.len(),
{
    if bytes.len() == 0 {
        assert(b64_encode(bytes) == Seq::<u8>::empty());
        assert(bytes =~= Seq::<u8>::empty());
    } else if bytes.len() == 1 {
        let b0 = bytes[0];
        lemma_enc1_bits(b0);
        lemma_sextet_char_val(b0 >> 2);
        lemma_sextet_char_val((b0 & 3) << 4);
        assert(bytes =~= seq![b0]);
    } else if bytes.len() == 2 {
        let (b0, b1) = (bytes[0], bytes[1]);
        lemma_enc2_bits(b0, b1);
        lemma_sextet_char_val(b0 >> 2);
        lemma_sextet_char_val(((b0 & 3) << 4) | (b1 >> 4));
        lemma_sextet_char_val((b1 & 15) << 2);
        assert(bytes =~= seq![b0, b1]);
    } else {
        let (b0, b1, b2) = (bytes[0], bytes[1], bytes[2]);
        let s = b64_encode(bytes);
        lemma_enc3_bits(b0, b1, b2);
        lemma_sextet_char_val(b0 >> 2);
        lemma_sextet_char_val(((b0 & 3) << 4) | (b1 >> 4));
        lemma_sextet_char_val(((b1 & 15) << 2) | (b2 >> 6));
        lemma_sextet_char_val(b2 & 63);
        lemma_b64_round_trip(bytes.skip(3));
        assert(s.skip(4) =~= b64_encode(bytes.skip(3)));
        assert(s.len() >= 4);
        assert(b64_decode(s) == Some(seq![b0, b1, b2] + bytes.skip(3)));
        assert(seq![b0, b1, b2] + bytes.skip(3) =~= bytes);
    }
}

/// Decoding is canonical: a text that decodes at all is the encoding of
/// what it decodes to, so distinct texts never decode to the same bytes.
pub proof fn lemma_b64_canonical(s: Seq<u8>)
    ensures
        b64_decode(s) matches Some(bytes) ==> s == b64_encode(bytes),
    decreases s.len(),
{
    if s.len() == 0 {
        assert(s =~= Seq::<u8>::empty());
        assert(b64_encode(Seq::<u8>::empty()) =~= Seq::<u8>::empty());
    } else if s.len() == 1 {
    } else if s.len() == 2 {
        if let (Some(d0), Some(d1)) = (sextet_val(s[0]), sextet_val(s[1])) {
            if d1 & 15 == 0 {
                lemma_sextet_val_char(s[0]);
                lemma_sextet_val_char(s[1]);
                lemma_dec1_bits(d0, d1);
                assert(s =~= enc1(dec_byte0(d0, d1)));
            }
        }
    } else if s.len() == 3 {
        if let (Some(d0), Some(d1), Some(d2)) = (sextet_val(s[0]), sextet_val(s[1]), sextet_val(
            s[2],
        )) {
            if d2 & 3 == 0 {
                lemma_sextet_val_char(s[0]);
                lemma_sextet_val_char(s[1]);
                lemma_sextet_val_char(s[2]);
                lemma_dec2_bits(d0, d1, d2);
                assert(s =~= enc2(dec_byte0(d0, d1), dec_byte1(d1, d2)));
            }
        }
    } else {
        if let (Some(d0), Some(d1), Some(d2), Some(d3)) = (
            sextet_val(s[0]),
            sextet_val(s[1]),
            sextet_val(s[2]),
            sextet_val(s[3]),
        ) {
            if let Some(rest) = b64_decode(s.skip(4)) {
                lemma_sextet_val_char(s[0]);
                lemma_sextet_val_char(s[1]);
                lemma_sextet_val_char(s[2]);
                lemma_sextet_val_char(s[3]);
                lemma_dec3_bits(d0, d1, d2, d3);
                lemma_b64_canonical(s.skip(4));
                let bytes = seq![dec_byte0(d0, d1), dec_byte1(d1, d2), dec_byte2(d2, d3)] + rest;
                assert(bytes.skip(3) =~= rest);
                assert(bytes.len() >= 3);
                if bytes.len() == 3 {
                    assert(b64_encode(bytes) == enc3(bytes[0], bytes[1], bytes[2]) + b64_encode(
                        bytes.skip(3),
                    ));
                    assert(b64_encode(rest) =~= Seq::<u8>::empty());
                    assert(s =~= enc3(bytes[0], bytes[1], bytes[2]));
                } else {
                    assert(s =~= enc3(bytes[0], bytes[1], bytes[2]) + b64_encode(rest));
                }
            }
        }
    }
}

fn sextet_char_exec(v: u8) -> (r: u8)
    ensures
        r == sextet_char(v),
{
    if v < 26 {
        v + 65
    } else if v < 52 {
        v + 71
    } else if v < 62 {
        v - 4
    } else if v == 62 {
        43
    } else {
        47
    }
}

fn sextet_val_exec(b: u8) -> (r: Option<u8>)
    ensures
        r == sextet_val(b),
{
    if 65 <= b && b <= 90 {
        Some(b - 65)
    } else if 97 <= b && b <= 122 {
        Some(b - 71)
    } else if 48 <= b && b <= 57 {
        Some(b + 4)
    } else if b == 43 {
        Some(62)
    } else if b == 47 {
        Some(63)
    } else {
        None
    }
}

/// Encodes a byte sequence as unpadded base64.
pub fn encode(bytes: &[u8]) -> (r: Vec<u8>)
    ensures
        r@ == b64_encode(bytes@),
{
    let mut r: Vec<u8> = Vec::new();
    let mut i: usize = 0;
    proof {
        assert(bytes@.skip(0) =~= bytes@);
        assert(r@ + b64_encode(bytes@.skip(0)) =~= b64_encode(bytes@));
    }
    while i < bytes.len() && bytes.len() - i >= 3
        invariant
            i <= bytes@.len(),
            b64_encode(bytes@) == r@ + b64_encode(bytes@.skip(i as int)),
        decreases bytes@.len() - i,
    {
        let (b0, b1, b2) = (bytes[i], bytes[i + 1], bytes[i + 2]);
        let ghost tail = bytes@.skip(i as int);
        r.push(sextet_char_exec(b0 >> 2));
        r.push(sextet_char_exec(((b0 & 3) << 4) | (b1 >> 4)));
        r.push(sextet_char_exec(((b1 & 15) << 2) | (b2 >> 6)));
        r.push(sextet_char_exec(b2 & 63));
        i = i + 3;
        proof {
            assert(tail.len() >= 3);
            assert(tail[0] == b0 && tail[1] == b1 && tail[2] == b2);
            assert(tail.skip(3) =~= bytes@.skip(i as int));
            assert(b64_encode(tail) == enc3(b0, b1, b2) + b64_encode(bytes@.skip(i as int)));
            assert(b64_encode(bytes@) =~= r@ + b64_encode(bytes@.skip(i as int)));
        }
    }
    let ghost tail = bytes@.skip(i as int);
    if bytes.len() - i == 1 {
        let b0 = bytes[i];
        r.push(sextet_char_exec(b0 >> 2));
        r.push(sextet_char_exec((b0 & 3) << 4));
        proof {
            assert(tail.len() == 1 && tail[0] == b0);
            assert(b64_encode(tail) == enc1(b0));
            assert(r@ =~= b64_encode(bytes@));
        }
    } else if bytes.len() - i == 2 {
        let (b0, b1) = (bytes[i], bytes[i + 1]);
        r.push(sextet_char_exec(b0 >> 2));
        r.push(sextet_char_exec(((b0 & 3) << 4) | (b1 >> 4)));
        r.push(sextet_char_exec((b1 & 15) << 2));
        proof {
            assert(tail.len() == 2 && tail[0] == b0 && tail[1] == b1);
            assert(b64_encode(tail) == enc2(b0, b1));
            assert(r@ =~= b64_encode(bytes@));
        }
    } else {
        proof {
            assert(tail.len() == 0);
            assert(b64_encode(tail) =~= Seq::<u8>::empty());
            assert(r@ =~= b64_encode(bytes@));
        }
    }
    r
}

spec fn opt_prepend(p: Seq<u8>, o: Option<Seq<u8>>) -> Option<Seq<u8>> {
    match o {
        Some(t) => Some(p + t),
        None => None,
    }
}

/// Decodes strict unpadded base64, `None` on any invalid text.
pub fn decode(s: &[u8]) -> (r: Option<Vec<u8>>)
    ensures
        match r {
            Some(v) => b64_decode(s@) == Some(v@),
            None => b64_decode(s@) is None,
        },
{
    let mut r: Vec<u8> = Vec::new();
    let mut i: usize = 0;
    proof {
        assert(s@.skip(0) =~= s@);
        assert(r@ + s@ =~= s@);
    }
    while i < s.len() && s.len() - i >= 4
        invariant
            i <= s@.len(),
            b64_decode(s@) == opt_prepend(r@, b64_decode(s@.skip(i as int))),
        decreases s@.len() - i,
    {
        let ghost tail = s@.skip(i as int);
        proof {
            assert(tail.len() >= 4);
            assert(tail[0] == s@[i as int] && tail[1] == s@[i + 1] && tail[2] == s@[i + 2]
                && tail[3] == s@[i + 3]);
        }
        let d0 = match sextet_val_exec(s[i]) {
            Some(d) => d,
            None => {
                return None;
            },
        };
        let d1 = match sextet_val_exec(s[i + 1]) {
            Some(d) => d,
            None => {
                return None;
            },
        };
        let d2 = match sextet_val_exec(s[i + 2]) {
            Some(d) => d,
            None => {
                return None;
            },
        };
        let d3 = match sextet_val_exec(s[i + 3]) {
            Some(d) => d,
            None => {
                return None;
            },
        };
        r.push((d0 << 2) | (d1 >> 4));
        r.push((d1 << 4) | (d2 >> 2));
        r.push((d2 << 6) | d3);
        i = i + 4;
        proof {
            assert(tail.skip(4) =~= s@.skip(i as int));
            assert(b64_decode(tail) == opt_prepend(
                seq![dec_byte0(d0, d1), dec_byte1(d1, d2), dec_byte2(d2, d3)],
                b64_decode(s@.skip(i as int)),
            ));
            if let Some(t) = b64_decode(s@.skip(i as int)) {
                assert(r@ + t =~= (r@.subrange(0, r@.len() - 3)) + (seq![
                    dec_byte0(d0, d1),
                    dec_byte1(d1, d2),
                    dec_byte2(d2, d3),
                ] + t));
            }
        }
    }
    let ghost tail = s@.skip(i as int);
    if i == s.len() {
        proof {
            assert(tail.len() == 0);
            assert(b64_decode(tail) == Some(Seq::<u8>::empty()));
            assert(r@ + Seq::<u8>::empty() =~= r@);
        }
        Some(r)
    } else if s.len() - i == 1 {
        None
    } else if s.len() - i == 2 {
        proof {
            assert(tail.len() == 2);
            assert(tail[0] == s@[i as int] && tail[1] == s@[i + 1]);
        }
        let d0 = match sextet_val_exec(s[i]) {
            Some(d) => d,
            None => {
                return None;
            },
        };
        let d1 = match sextet_val_exec(s[i + 1]) {
            Some(d) => d,
            None => {
                return None;
            },
        };
        if d1 & 15 != 0 {
            return None;
        }
        r.push((d0 << 2) | (d1 >> 4));
        proof {
            assert(b64_decode(tail) == Some(seq![dec_byte0(d0, d1)]));
            if let Some(t) = b64_decode(tail) {
                assert(r@ =~= r@.subrange(0, r@.len() - 1) + t);
            }
        }
        Some(r)
    } else {
        proof {
            assert(tail.len() == 3);
            assert(tail[0] == s@[i as int] && tail[1] == s@[i + 1] && tail[2] == s@[i + 2]);
        }
        let d0 = match sextet_val_exec(s[i]) {
            Some(d) => d,
            None => {
                return None;
            },
        };
        let d1 = match sextet_val_exec(s[i + 1]) {
            Some(d) => d,
            None => {
                return None;
            },
        };
        let d2 = match sextet_val_exec(s[i + 2]) {
            Some(d) => d,
            None => {
                return None;
            },
        };
        if d2 & 3 != 0 {
            return None;
        }
        r.push((d0 << 2) | (d1 >> 4));
        r.push((d1 << 4) | (d2 >> 2));
        proof {
            assert(b64_decode(tail) == Some(seq![dec_byte0(d0, d1), dec_byte1(d1, d2)]));
            if let Some(t) = b64_decode(tail) {
                assert(r@ =~= r@.subrange(0, r@.len() - 2) + t);
            }
        }
        Some(r)
    }
}

} // verus!
