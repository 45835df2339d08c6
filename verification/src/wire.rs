//! The binary wire format of message bodies: a protocol-version header,
//! length-prefixed fields with one-byte tags, and variable-length integers
//! in base-128 little-endian groups with a continuation bit. Decoding is
//! strict — non-minimal integers and trailing bytes are rejected — so every
//! message has exactly one binary form.

use vstd::prelude::*;

use crate::DecodeError;

verus! {

/// The protocol version byte that every binary body starts with.
pub const VERSION: u8 = 3;

/// Field tag of a ratchet public key (normal) or one-time key (pre-key).
pub const TAG_KEY: u8 = 0x0a;

/// Field tag of the chain index of a normal message.
pub const TAG_INDEX: u8 = 0x10;

/// Field tag of the base public key of a pre-key message.
pub const TAG_BASE_KEY: u8 = 0x12;

/// Field tag of the identity public key of a pre-key message.
pub const TAG_IDENTITY_KEY: u8 = 0x1a;

/// Field tag of the ciphertext (normal) or embedded message (pre-key).
pub const TAG_PAYLOAD: u8 = 0x22;

/// Byte length of the truncated authentication tag of a normal message.
pub const MAC_LEN: usize = 8;

/// The variable-length encoding of an unsigned integer: seven value bits
/// per byte, least significant group first, high bit set on every byte but
/// the last.
pub open spec fn varint_enc(n: nat) -> Seq<u8>
    decreases n,
{
    if n < 128 {
        seq![n as u8]
    } else {
        seq![(128 + (n % 128)) as u8] + varint_enc(n / 128)
    }
}

/// Strict decoding of a variable-length integer from the front of `s`:
/// the value and the remaining bytes, or the error. A continuation into a
/// zero tail would be a non-minimal form and is rejected.
pub open spec fn varint_dec(s: Seq<u8>) -> Result<(nat, Seq<u8>), DecodeError>
    decreases s.len(),
{
    if s.len() == 0 {
        Err(DecodeError::Truncated)
    } else if s[0] < 128 {
        Ok(((s[0] as nat), s.skip(1)))
    } else {
        match varint_dec(s.skip(1)) {
            Ok((m, rest)) => if m == 0 {
                Err(DecodeError::InvalidStructure)
            } else {
                Ok((((s[0] - 128) as nat + 128 * m) as nat, rest))
            },
            Err(e) => Err(e),
        }
    }
}

/// Decoding inverts encoding, whatever follows the integer.
pub proof fn lemma_varint_round_trip(n: nat, rest: Seq<u8>)
    ensures
        varint_dec(varint_enc(n) + rest) == Ok::<(nat, Seq<u8>), DecodeError>((n, rest)),
    decreases n,
{
    let s = varint_enc(n) + rest;
    if n < 128 {
        assert(s[0] == n as u8);
        assert(s[0] < 128);
        assert(s.skip(1) =~= rest);
    } else {
        let hb = (128 + (n % 128)) as u8;
        assert(128 <= 128 + (n % 128) < 256);
        assert(s[0] == hb && hb >= 128);
        lemma_varint_round_trip(n / 128, rest);
        assert(s.skip(1) =~= varint_enc(n / 128) + rest);
        assert(n / 128 >= 1) by (nonlinear_arith)
            requires
                n >= 128,
        ;
        vstd::arithmetic::div_mod::lemma_fundamental_div_mod(n as int, 128);
        assert((hb - 128) as nat + 128 * (n / 128) == n);
    }
}

/// Decoding is canonical: what decodes is the one encoding of its value.
pub proof fn lemma_varint_canonical(s: Seq<u8>)
    ensures
        varint_dec(s) matches Ok(p) ==> s == varint_enc(p.0) + p.1,
    decreases s.len(),
{
    if s.len() == 0 {
    } else if s[0] < 128 {
        assert(varint_enc(s[0] as nat) == seq![s[0]]);
        assert(s =~= seq![s[0]] + s.skip(1));
    } else {
        lemma_varint_canonical(s.skip(1));
        if let Ok((m, rest)) = varint_dec(s.skip(1)) {
            if m != 0 {
                let n = (s[0] - 128) as nat + 128 * m;
                assert(128 * m >= 128) by (nonlinear_arith)
                    requires
                        m >= 1,
                ;
                assert(n >= 128);
                vstd::arithmetic::div_mod::lemma_fundamental_div_mod_converse(
                    n as int,
                    128,
                    m as int,
                    (s[0] - 128) as int,
                );
                assert(n % 128 == (s[0] - 128) as nat && n / 128 == m);
                assert((128 + (n % 128)) as u8 == s[0]);
                assert(varint_enc(n) == seq![s[0]] + varint_enc(m));
                assert(s =~= seq![s[0]] + s.skip(1));
                assert(varint_enc(n) + rest =~= seq![s[0]] + (varint_enc(m) + rest));
                assert(s =~= varint_enc(n) + rest);
            }
        }
    }
}

/// Appends the variable-length encoding of `n` to `out`.
pub fn push_varint(out: &mut Vec<u8>, n: u64)
    ensures
        final(out)@ == old(out)@ + varint_enc(n as nat),
    decreases n,
{
    if n < 128 {
        out.push(n as u8);
        proof {
            assert(final(out)@ =~= old(out)@ + varint_enc(n as nat));
        }
    } else {
        let low = (n % 128) as u8;
        out.push(128 + low);
        let ghost mid = out@;
        push_varint(out, n / 128);
        proof {
            assert(n as nat >= 128);
            assert((n % 128) as nat == (n as nat) % 128);
            assert((n / 128) as nat == (n as nat) / 128);
            assert(mid =~= old(out)@ + seq![(128 + ((n as nat) % 128)) as u8]);
            assert(final(out)@ =~= old(out)@ + varint_enc(n as nat));
        }
    }
}

/// How a variable-length integer read comes out: a value that fits in
/// `u64` with the position after it, a well-formed value too large for
/// `u64` with the position after it, or a decode error.
pub enum VarintOutcome {
    Fits(u64, usize),
    Large(usize),
    Fail(DecodeError),
}

/// Reads a variable-length integer from `s` at position `i`.
pub fn parse_varint(s: &[u8], i: usize) -> (r: VarintOutcome)
    requires
        i <= s@.len(),
    ensures
        match r {
            VarintOutcome::Fits(v, j) => i < j <= s@.len() && varint_dec(s@.skip(i as int))
                == Ok::<(nat, Seq<u8>), DecodeError>((v as nat, s@.skip(j as int))),
            VarintOutcome::Large(j) => i < j <= s@.len() && (varint_dec(s@.skip(i as int))
                matches Ok(p) && p.0 > u64::MAX && p.1 == s@.skip(j as int)),
            VarintOutcome::Fail(e) => varint_dec(s@.skip(i as int)) == Err::<
                (nat, Seq<u8>),
                DecodeError,
            >(e),
        },
    decreases s@.len() - i,
{
    if i == s.len() {
        proof {
            assert(s@.skip(i as int).len() == 0);
        }
        return VarintOutcome::Fail(DecodeError::Truncated);
    }
    let b = s[i];
    proof {
        assert(s@.skip(i as int)[0] == s@[i as int]);
        assert(s@.skip(i as int).skip(1) =~= s@.skip(i as int + 1));
    }
    if b < 128 {
        return VarintOutcome::Fits(b as u64, i + 1);
    }
    match parse_varint(s, i + 1) {
        VarintOutcome::Fits(m, j) => {
            if m == 0 {
                VarintOutcome::Fail(DecodeError::InvalidStructure)
            } else {
                let low = (b - 128) as u64;
                let big: u128 = low as u128 + 128u128 * (m as u128);
                proof {
                    assert(big == low as nat + 128 * (m as nat)) by (nonlinear_arith)
                        requires
                            big == low as u128 + 128u128 * (m as u128),
                            m <= u64::MAX,
                            low < 128,
                    ;
                }
                if big <= u64::MAX as u128 {
                    VarintOutcome::Fits(big as u64, j)
                } else {
                    VarintOutcome::Large(j)
                }
            }
        },
        VarintOutcome::Large(j) => {
            proof {
                if let Ok((m, rest)) = varint_dec(s@.skip(i as int + 1)) {
                    assert(128 * m >= m) by (nonlinear_arith)
                        requires
                            m >= 0,
                    ;
                }
            }
            VarintOutcome::Large(j)
        },
        VarintOutcome::Fail(e) => VarintOutcome::Fail(e),
    }
}

/// The mathematical content of a normal (ratcheted) message body.
pub ghost struct MsgSpec {
    pub ratchet_key: Seq<u8>,
    pub index: nat,
    pub ciphertext: Seq<u8>,
    pub mac: Seq<u8>,
}

/// The field widths a normal message body must have on the wire.
pub open spec fn msg_wf(m: MsgSpec) -> bool {
    &&& m.ratchet_key.len() == 32
    &&& m.mac.len() == MAC_LEN
    &&& m.index <= u64::MAX
}

/// The binary form of a normal message: version, ratchet key, chain
/// index, ciphertext, then the truncated authentication tag.
pub open spec fn msg_enc(m: MsgSpec) -> Seq<u8> {
    seq![VERSION, TAG_KEY, 32u8] + m.ratchet_key + seq![TAG_INDEX] + varint_enc(m.index)
        + seq![TAG_PAYLOAD] + varint_enc(m.ciphertext.len()) + m.ciphertext + m.mac
}

/// Strict decoding of a normal message body.
pub open spec fn msg_dec(s: Seq<u8>) -> Result<MsgSpec, DecodeError> {
    if s.len() == 0 {
        Err(DecodeError::Truncated)
    } else if s[0] != VERSION {
        Err(DecodeError::InvalidStructure)
    } else if s.len() == 1 {
        Err(DecodeError::Truncated)
    } else if s[1] != TAG_KEY {
        Err(DecodeError::InvalidStructure)
    } else if s.len() == 2 {
        Err(DecodeError::Truncated)
    } else if s[2] != 32 {
        Err(DecodeError::InvalidStructure)
    } else if s.len() < 36 {
        Err(DecodeError::Truncated)
    } else if s[35] != TAG_INDEX {
        Err(DecodeError::InvalidStructure)
    } else {
        match varint_dec(s.skip(36)) {
            Err(e) => Err(e),
            Ok((n, s2)) => if n > u64::MAX {
                Err(DecodeError::InvalidStructure)
            } else if s2.len() == 0 {
                Err(DecodeError::Truncated)
            } else if s2[0] != TAG_PAYLOAD {
                Err(DecodeError::InvalidStructure)
            } else {
                match varint_dec(s2.skip(1)) {
                    Err(e) => Err(e),
                    Ok((l, s3)) => if s3.len() < l + MAC_LEN {
                        Err(DecodeError::Truncated)
                    } else if s3.len() > l + MAC_LEN {
                        Err(DecodeError::InvalidStructure)
                    } else {
                        Ok(
                            MsgSpec {
                                ratchet_key: s.subrange(3, 35),
                                index: n,
                                ciphertext: s3.take(l as int),
                                mac: s3.skip(l as int),
                            },
                        )
                    },
                }
            },
        }
    }
}

/// Decoding inverts encoding for every well-formed normal message.
pub proof fn lemma_msg_round_trip(m: MsgSpec)
    requires
        msg_wf(m),
    ensures
        msg_dec(msg_enc(m)) == Ok::<MsgSpec, DecodeError>(m),
{
    let s = msg_enc(m);
    let vi = varint_enc(m.index);
    let l = m.ciphertext.len();
    let vl = varint_enc(l);
    let tail2 = m.ciphertext + m.mac;
    let tail1 = seq![TAG_PAYLOAD] + vl + tail2;
    assert(vi.len() >= 1 && vl.len() >= 1);
    assert(s.len() >= 36);
    assert(s[0] == VERSION && s[1] == TAG_KEY && s[2] == 32u8);
    assert(s.subrange(3, 35) =~= m.ratchet_key);
    assert(s[35] == TAG_INDEX);
    assert(s.skip(36) =~= vi + tail1);
    lemma_varint_round_trip(m.index, tail1);
    assert(tail1[0] == TAG_PAYLOAD);
    assert(tail1.skip(1) =~= vl + tail2);
    lemma_varint_round_trip(l, tail2);
    assert(tail2.len() == l + MAC_LEN);
    assert(tail2.take(l as int) =~= m.ciphertext);
    assert(tail2.skip(l as int) =~= m.mac);
    assert(msg_dec(s) matches Ok(r) && r == m);
}

/// Decoding a normal message is canonical: what decodes is well formed
/// and is the one encoding of its value.
pub proof fn lemma_msg_canonical(s: Seq<u8>)
    ensures
        msg_dec(s) matches Ok(m) ==> msg_wf(m) && s == msg_enc(m),
{
    if let Ok(m) = msg_dec(s) {
        let (n, s2) = varint_dec(s.skip(36)) -> Ok_0;
        let (l, s3) = varint_dec(s2.skip(1)) -> Ok_0;
        lemma_varint_canonical(s.skip(36));
        lemma_varint_canonical(s2.skip(1));
        assert(s.skip(36) == varint_enc(n) + s2);
        assert(s2.skip(1) == varint_enc(l) + s3);
        assert(s2 =~= seq![TAG_PAYLOAD] + s2.skip(1));
        assert(s3 =~= s3.take(l as int) + s3.skip(l as int));
        assert(m.ratchet_key == s.subrange(3, 35) && m.index == n && m.ciphertext == s3.take(
            l as int,
        ) && m.mac == s3.skip(l as int));
        assert(msg_wf(m));
        assert(msg_enc(m) =~= seq![VERSION, TAG_KEY, 32u8] + s.subrange(3, 35) + seq![TAG_INDEX]
            + varint_enc(n) + seq![TAG_PAYLOAD] + varint_enc(l) + s3.take(l as int) + s3.skip(
            l as int,
        ));
        assert(s =~= s.subrange(0, 3) + s.subrange(3, 35) + s.subrange(35, 36) + s.skip(36));
        assert(s.subrange(0, 3) =~= seq![VERSION, TAG_KEY, 32u8]);
        assert(s.subrange(35, 36) =~= seq![TAG_INDEX]);
        assert(s =~= msg_enc(m));
    }
}

/// The mathematical content of a pre-key (first-contact) message body.
pub ghost struct PreKeySpec {
    pub one_time_key: Seq<u8>,
    pub base_key: Seq<u8>,
    pub identity_key: Seq<u8>,
    pub message: MsgSpec,
}

/// The field widths a pre-key message body must have on the wire.
pub open spec fn prekey_wf(p: PreKeySpec) -> bool {
    &&& p.one_time_key.len() == 32
    &&& p.base_key.len() == 32
    &&& p.identity_key.len() == 32
    &&& msg_wf(p.message)
}

/// The binary form of a pre-key message: version, one-time key, base
/// key, identity key, then the embedded normal message.
pub open spec fn prekey_enc(p: PreKeySpec) -> Seq<u8> {
    seq![VERSION, TAG_KEY, 32u8] + p.one_time_key + seq![TAG_BASE_KEY, 32u8] + p.base_key
        + seq![TAG_IDENTITY_KEY, 32u8] + p.identity_key + seq![TAG_PAYLOAD] + varint_enc(
        msg_enc(p.message).len(),
    ) + msg_enc(p.message)
}

/// Strict decoding of a pre-key message body.
pub open spec fn prekey_dec(s: Seq<u8>) -> Result<PreKeySpec, DecodeError> {
    if s.len() == 0 {
        Err(DecodeError::Truncated)
    } else if s[0] != VERSION {
        Err(DecodeError::InvalidStructure)
    } else if s.len() == 1 {
        Err(DecodeError::Truncated)
    } else if s[1] != TAG_KEY {
        Err(DecodeError::InvalidStructure)
    } else if s.len() == 2 {
        Err(DecodeError::Truncated)
    } else if s[2] != 32 {
        Err(DecodeError::InvalidStructure)
    } else if s.len() < 36 {
        Err(DecodeError::Truncated)
    } else if s[35] != TAG_BASE_KEY {
        Err(DecodeError::InvalidStructure)
    } else if s.len() == 36 {
        Err(DecodeError::Truncated)
    } else if s[36] != 32 {
        Err(DecodeError::InvalidStructure)
    } else if s.len() < 70 {
        Err(DecodeError::Truncated)
    } else if s[69] != TAG_IDENTITY_KEY {
        Err(DecodeError::InvalidStructure)
    } else if s.len() == 70 {
        Err(DecodeError::Truncated)
    } else if s[70] != 32 {
        Err(DecodeError::InvalidStructure)
    } else if s.len() < 104 {
        Err(DecodeError::Truncated)
    } else if s[103] != TAG_PAYLOAD {
        Err(DecodeError::InvalidStructure)
    } else {
        match varint_dec(s.skip(104)) {
            Err(e) => Err(e),
            Ok((l, s2)) => if s2.len() < l {
                Err(DecodeError::Truncated)
            } else if s2.len() > l {
                Err(DecodeError::InvalidStructure)
            } else {
                match msg_dec(s2) {
                    Err(e) => Err(e),
                    Ok(mm) => Ok(
                        PreKeySpec {
                            one_time_key: s.subrange(3, 35),
                            base_key: s.subrange(37, 69),
                            identity_key: s.subrange(71, 103),
                            message: mm,
                        },
                    ),
                }
            },
        }
    }
}

/// Decoding inverts encoding for every well-formed pre-key message.
pub proof fn lemma_prekey_round_trip(p: PreKeySpec)
    requires
        prekey_wf(p),
    ensures
        prekey_dec(prekey_enc(p)) == Ok::<PreKeySpec, DecodeError>(p),
{
    let s = prekey_enc(p);
    let inner = msg_enc(p.message);
    let vl = varint_enc(inner.len());
    assert(vl.len() >= 1);
    assert(s.len() >= 104 + 1 + inner.len());
    assert(s[0] == VERSION && s[1] == TAG_KEY && s[2] == 32u8);
    assert(s.subrange(3, 35) =~= p.one_time_key);
    assert(s[35] == TAG_BASE_KEY && s[36] == 32u8);
    assert(s.subrange(37, 69) =~= p.base_key);
    assert(s[69] == TAG_IDENTITY_KEY && s[70] == 32u8);
    assert(s.subrange(71, 103) =~= p.identity_key);
    assert(s[103] == TAG_PAYLOAD);
    assert(s.skip(104) =~= vl + inner);
    lemma_varint_round_trip(inner.len(), inner);
    lemma_msg_round_trip(p.message);
    assert(prekey_dec(s) matches Ok(r) && r == p);
}

/// Decoding a pre-key message is canonical: what decodes is well formed
/// and is the one encoding of its value.
pub proof fn lemma_prekey_canonical(s: Seq<u8>)
    ensures
        prekey_dec(s) matches Ok(p) ==> prekey_wf(p) && s == prekey_enc(p),
{
    if let Ok(p) = prekey_dec(s) {
        let (l, s2) = varint_dec(s.skip(104)) -> Ok_0;
        lemma_varint_canonical(s.skip(104));
        assert(s.skip(104) == varint_enc(l) + s2);
        lemma_msg_canonical(s2);
        assert(s2 == msg_enc(p.message));
        assert(l == msg_enc(p.message).len());
        assert(prekey_wf(p));
        assert(s =~= s.subrange(0, 3) + s.subrange(3, 35) + s.subrange(35, 37) + s.subrange(37, 69)
            + s.subrange(69, 71) + s.subrange(71, 103) + s.subrange(103, 104) + s.skip(104));
        assert(s.subrange(0, 3) =~= seq![VERSION, TAG_KEY, 32u8]);
        assert(s.subrange(35, 37) =~= seq![TAG_BASE_KEY, 32u8]);
        assert(s.subrange(69, 71) =~= seq![TAG_IDENTITY_KEY, 32u8]);
        assert(s.subrange(103, 104) =~= seq![TAG_PAYLOAD]);
        assert(prekey_enc(p) =~= seq![VERSION, TAG_KEY, 32u8] + p.one_time_key + seq![
            TAG_BASE_KEY,
            32u8,
        ] + p.base_key + seq![TAG_IDENTITY_KEY, 32u8] + p.identity_key + seq![TAG_PAYLOAD]
            + varint_enc(l) + s2);
        assert(s =~= prekey_enc(p));
    }
}

} // verus!
