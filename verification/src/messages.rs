//! The message envelope: the two wire message kinds, their binary and
//! base64 text forms, and the tagged envelope `OlmMessage` that carries
//! either kind together with its numeric type tag.

use vstd::prelude::*;

use crate::DecodeError;
use crate::base64::{b64_decode, b64_encode, lemma_b64_encode_ascii};
use crate::wire::{
    msg_dec, msg_enc, msg_wf, prekey_dec, prekey_enc, prekey_wf, parse_varint, push_varint,
    MsgSpec, PreKeySpec, VarintOutcome, MAC_LEN, TAG_BASE_KEY, TAG_IDENTITY_KEY, TAG_INDEX,
    TAG_KEY, TAG_PAYLOAD, VERSION,
};
use vstd::utf8::encode_utf8;

verus! {

broadcast use vstd::array::group_array_axioms;

/// A normal ratcheted message: the sender's current ratchet public key,
/// the index of the message key in the sending chain, the ciphertext,
/// and the truncated authentication tag the sender computed over the
/// preceding bytes.
#[derive(Debug, Clone, PartialEq)]
pub struct Message {
    pub ratchet_key: [u8; 32],
    pub index: u64,
    pub ciphertext: Vec<u8>,
    pub mac: [u8; 8],
}

impl View for Message {
    type V = MsgSpec;

    open spec fn view(&self) -> MsgSpec {
        MsgSpec {
            ratchet_key: self.ratchet_key@,
            index: self.index as nat,
            ciphertext: self.ciphertext@,
            mac: self.mac@,
        }
    }
}

/// A pre-key (first-contact) message: the one-time key it consumes, the
/// sender's ephemeral base key and identity key, and the embedded normal
/// message.
#[derive(Debug, Clone, PartialEq)]
pub struct PreKeyMessage {
    pub one_time_key: [u8; 32],
    pub base_key: [u8; 32],
    pub identity_key: [u8; 32],
    pub message: Message,
}

impl View for PreKeyMessage {
    type V = PreKeySpec;

    open spec fn view(&self) -> PreKeySpec {
        PreKeySpec {
            one_time_key: self.one_time_key@,
            base_key: self.base_key@,
            identity_key: self.identity_key@,
            message: self.message@,
        }
    }
}

/// Appends all bytes of `s` to `out`.
fn push_slice(out: &mut Vec<u8>, s: &[u8])
    ensures
        final(out)@ == old(out)@ + s@,
{
    let mut j: usize = 0;
    proof {
        assert(out@ =~= old(out)@ + s@.take(0));
    }
    while j < s.len()
        invariant
            j <= s@.len(),
            out@ == old(out)@ + s@.take(j as int),
        decreases s@.len() - j,
    {
        out.push(s[j]);
        j = j + 1;
        proof {
            assert(out@ =~= old(out)@ + s@.take(j as int));
        }
    }
    proof {
        assert(s@.take(s@.len() as int) =~= s@);
    }
}

/// Copies the 32 bytes of `s` starting at `off` into an array.
fn copy_key(s: &[u8], off: usize) -> (r: [u8; 32])
    requires
        off + 32 <= s@.len(),
    ensures
        r@ == s@.subrange(off as int, off as int + 32),
{
    let n = s.len();
    let mut r = [0u8; 32];
    let mut j: usize = 0;
    while j < 32
        invariant
            j <= 32,
            off + 32 <= n == s@.len(),
            forall|k: int| 0 <= k < j ==> r@[k] == s@[off + k],
        decreases 32 - j,
    {
        r[j] = s[off + j];
        j = j + 1;
    }
    proof {
        assert(r@ =~= s@.subrange(off as int, off as int + 32));
    }
    r
}

/// Copies the 8 bytes of `s` starting at `off` into an array.
fn copy_mac(s: &[u8], off: usize) -> (r: [u8; 8])
    requires
        off + 8 <= s@.len(),
    ensures
        r@ == s@.subrange(off as int, off as int + 8),
{
    let n = s.len();
    let mut r = [0u8; 8];
    let mut j: usize = 0;
    while j < 8
        invariant
            j <= 8,
            off + 8 <= n == s@.len(),
            forall|k: int| 0 <= k < j ==> r@[k] == s@[off + k],
        decreases 8 - j,
    {
        r[j] = s[off + j];
        j = j + 1;
    }
    proof {
        assert(r@ =~= s@.subrange(off as int, off as int + 8));
    }
    r
}

/// Relies on `String::from_utf8`: the returned string's UTF-8 encoding
/// is exactly the given bytes, which are valid UTF-8 because they are
/// ASCII.
#[verifier::external_body]
fn ascii_to_string(bytes: Vec<u8>) -> (r: String)
    requires
        forall|i: int| 0 <= i < bytes@.len() ==> bytes@[i] < 128,
    ensures
        encode_utf8(r@) == bytes@,
{
    match String::from_utf8(bytes) {
        Ok(s) => s,
        Err(_) => String::new(),
    }
}

/// Decoding of a base64 text (as its UTF-8 bytes) into a normal message.
pub open spec fn body_dec_msg(b: Seq<u8>) -> Result<MsgSpec, DecodeError> {
    match b64_decode(b) {
        Some(x) => msg_dec(x),
        None => Err(DecodeError::Base64),
    }
}

/// Decoding of a base64 text (as its UTF-8 bytes) into a pre-key message.
pub open spec fn body_dec_prekey(b: Seq<u8>) -> Result<PreKeySpec, DecodeError> {
    match b64_decode(b) {
        Some(x) => prekey_dec(x),
        None => Err(DecodeError::Base64),
    }
}

impl Message {
    /// The binary form of this message.
    pub fn to_bytes(&self) -> (r: Vec<u8>)
        ensures
            r@ == msg_enc(self@),
    {
        let mut out: Vec<u8> = Vec::new();
        out.push(VERSION);
        out.push(TAG_KEY);
        out.push(32);
        push_slice(&mut out, self.ratchet_key.as_slice());
        out.push(TAG_INDEX);
        push_varint(&mut out, self.index);
        out.push(TAG_PAYLOAD);
        let clen = self.ciphertext.len();
        proof {
            assert(clen as u64 as nat == clen as nat);
        }
        push_varint(&mut out, clen as u64);
        push_slice(&mut out, self.ciphertext.as_slice());
        push_slice(&mut out, self.mac.as_slice());
        proof {
            assert(out@ =~= msg_enc(self@));
        }
        out
    }

    /// Decodes the binary form of a normal message.
    pub fn from_bytes(s: &[u8]) -> (r: Result<Message, DecodeError>)
        ensures
            match r {
                Ok(m) => msg_dec(s@) == Ok::<MsgSpec, DecodeError>(m@),
                Err(e) => msg_dec(s@) == Err::<MsgSpec, DecodeError>(e),
            },
    {
        if s.len() == 0 {
            return Err(DecodeError::Truncated);
        }
        if s[0] != VERSION {
            return Err(DecodeError::InvalidStructure);
        }
        if s.len() == 1 {
            return Err(DecodeError::Truncated);
        }
        if s[1] != TAG_KEY {
            return Err(DecodeError::InvalidStructure);
        }
        if s.len() == 2 {
            return Err(DecodeError::Truncated);
        }
        if s[2] != 32 {
            return Err(DecodeError::InvalidStructure);
        }
        if s.len() < 36 {
            return Err(DecodeError::Truncated);
        }
        if s[35] != TAG_INDEX {
            return Err(DecodeError::InvalidStructure);
        }
        let key = copy_key(s, 3);
        let (index, pos) = match parse_varint(s, 36) {
            VarintOutcome::Fits(v, j) => (v, j),
            VarintOutcome::Large(_) => {
                return Err(DecodeError::InvalidStructure);
            },
            VarintOutcome::Fail(e) => {
                return Err(e);
            },
        };
        let ghost s2 = s@.skip(pos as int);
        if pos == s.len() {
            return Err(DecodeError::Truncated);
        }
        if s[pos] != TAG_PAYLOAD {
            return Err(DecodeError::InvalidStructure);
        }
        proof {
            assert(s2[0] == s@[pos as int]);
            assert(s2.skip(1) =~= s@.skip(pos as int + 1));
        }
        let (l, pos2) = match parse_varint(s, pos + 1) {
            VarintOutcome::Fits(v, j) => (v, j),
            VarintOutcome::Large(_) => {
                // the remaining bytes cannot reach so large a length
                proof {
                    if let Ok(p) = crate::wire::varint_dec(s2.skip(1)) {
                        assert(p.1.len() < p.0 + MAC_LEN);
                    }
                }
                return Err(DecodeError::Truncated);
            },
            VarintOutcome::Fail(e) => {
                return Err(e);
            },
        };
        let ghost s3 = s@.skip(pos2 as int);
        let rem: usize = s.len() - pos2;
        if l > rem as u64 {
            return Err(DecodeError::Truncated);
        }
        let lu: usize = l as usize;
        if rem - lu < 8 {
            return Err(DecodeError::Truncated);
        }
        if rem - lu > 8 {
            return Err(DecodeError::InvalidStructure);
        }
        let ct = vstd::slice::slice_to_vec(vstd::slice::slice_subrange(s, pos2, pos2 + lu));
        let mac = copy_mac(s, pos2 + lu);
        proof {
            assert(s3.take(l as int) =~= s@.subrange(pos2 as int, pos2 as int + lu as int));
            assert(s3.skip(l as int) =~= s@.subrange(
                pos2 as int + lu as int,
                pos2 as int + lu as int + 8,
            ));
        }
        Ok(Message { ratchet_key: key, index, ciphertext: ct, mac })
    }

    /// The base64 text form of this message.
    pub fn to_base64(&self) -> (r: String)
        ensures
            encode_utf8(r@) == b64_encode(msg_enc(self@)),
    {
        let bytes = self.to_bytes();
        let text = crate::base64::encode(bytes.as_slice());
        proof {
            lemma_b64_encode_ascii(bytes@);
        }
        ascii_to_string(text)
    }

    /// Decodes the base64 text form of a normal message.
    pub fn from_base64(s: &str) -> (r: Result<Message, DecodeError>)
        ensures
            match r {
                Ok(m) => body_dec_msg(encode_utf8(s@)) == Ok::<MsgSpec, DecodeError>(m@),
                Err(e) => body_dec_msg(encode_utf8(s@)) == Err::<MsgSpec, DecodeError>(e),
            },
    {
        let bytes = s.as_bytes();
        match crate::base64::decode(bytes) {
            None => Err(DecodeError::Base64),
            Some(v) => Message::from_bytes(v.as_slice()),
        }
    }
}

impl PreKeyMessage {
    /// The binary form of this message.
    pub fn to_bytes(&self) -> (r: Vec<u8>)
        ensures
            r@ == prekey_enc(self@),
    {
        let inner = self.message.to_bytes();
        let mut out: Vec<u8> = Vec::new();
        out.push(VERSION);
        out.push(TAG_KEY);
        out.push(32);
        push_slice(&mut out, self.one_time_key.as_slice());
        out.push(TAG_BASE_KEY);
        out.push(32);
        push_slice(&mut out, self.base_key.as_slice());
        out.push(TAG_IDENTITY_KEY);
        out.push(32);
        push_slice(&mut out, self.identity_key.as_slice());
        out.push(TAG_PAYLOAD);
        let ilen = inner.len();
        proof {
            assert(ilen as u64 as nat == ilen as nat);
        }
        push_varint(&mut out, ilen as u64);
        push_slice(&mut out, inner.as_slice());
        proof {
            assert(out@ =~= prekey_enc(self@));
        }
        out
    }

    /// Decodes the binary form of a pre-key message.
    pub fn from_bytes(s: &[u8]) -> (r: Result<PreKeyMessage, DecodeError>)
        ensures
            match r {
                Ok(m) => prekey_dec(s@) == Ok::<PreKeySpec, DecodeError>(m@),
                Err(e) => prekey_dec(s@) == Err::<PreKeySpec, DecodeError>(e),
            },
    {
        if s.len() == 0 {
            return Err(DecodeError::Truncated);
        }
        if s[0] != VERSION {
            return Err(DecodeError::InvalidStructure);
        }
        if s.len() == 1 {
            return Err(DecodeError::Truncated);
        }
        if s[1] != TAG_KEY {
            return Err(DecodeError::InvalidStructure);
        }
        if s.len() == 2 {
            return Err(DecodeError::Truncated);
        }
        if s[2] != 32 {
            return Err(DecodeError::InvalidStructure);
        }
        if s.len() < 36 {
            return Err(DecodeError::Truncated);
        }
        if s[35] != TAG_BASE_KEY {
            return Err(DecodeError::InvalidStructure);
        }
        if s.len() == 36 {
            return Err(DecodeError::Truncated);
        }
        if s[36] != 32 {
            return Err(DecodeError::InvalidStructure);
        }
        if s.len() < 70 {
            return Err(DecodeError::Truncated);
        }
        if s[69] != TAG_IDENTITY_KEY {
            return Err(DecodeError::InvalidStructure);
        }
        if s.len() == 70 {
            return Err(DecodeError::Truncated);
        }
        if s[70] != 32 {
            return Err(DecodeError::InvalidStructure);
        }
        if s.len() < 104 {
            return Err(DecodeError::Truncated);
        }
        if s[103] != TAG_PAYLOAD {
            return Err(DecodeError::InvalidStructure);
        }
        let one_time_key = copy_key(s, 3);
        let base_key = copy_key(s, 37);
        let identity_key = copy_key(s, 71);
        let (l, pos) = match parse_varint(s, 104) {
            VarintOutcome::Fits(v, j) => (v, j),
            VarintOutcome::Large(_) => {
                return Err(DecodeError::Truncated);
            },
            VarintOutcome::Fail(e) => {
                return Err(e);
            },
        };
        let rem: usize = s.len() - pos;
        if (rem as u64) < l {
            return Err(DecodeError::Truncated);
        }
        if (rem as u64) > l {
            return Err(DecodeError::InvalidStructure);
        }
        let inner = vstd::slice::slice_subrange(s, pos, s.len());
        match Message::from_bytes(inner) {
            Err(e) => Err(e),
            Ok(message) => Ok(PreKeyMessage { one_time_key, base_key, identity_key, message }),
        }
    }

    /// The base64 text form of this message.
    pub fn to_base64(&self) -> (r: String)
        ensures
            encode_utf8(r@) == b64_encode(prekey_enc(self@)),
    {
        let bytes = self.to_bytes();
        let text = crate::base64::encode(bytes.as_slice());
        proof {
            lemma_b64_encode_ascii(bytes@);
        }
        ascii_to_string(text)
    }

    /// Decodes the base64 text form of a pre-key message.
    pub fn from_base64(s: &str) -> (r: Result<PreKeyMessage, DecodeError>)
        ensures
            match r {
                Ok(m) => body_dec_prekey(encode_utf8(s@)) == Ok::<PreKeySpec, DecodeError>(m@),
                Err(e) => body_dec_prekey(encode_utf8(s@)) == Err::<PreKeySpec, DecodeError>(e),
            },
    {
        let bytes = s.as_bytes();
        match crate::base64::decode(bytes) {
            None => Err(DecodeError::Base64),
            Some(v) => PreKeyMessage::from_bytes(v.as_slice()),
        }
    }
}

/// The mathematical content of an envelope: one of the two wire kinds.
pub ghost enum OlmMessageView {
    Normal(MsgSpec),
    PreKey(PreKeySpec),
}

/// A decoded wire envelope: a normal ratcheted message or a pre-key
/// (first-contact) message.
#[derive(Debug, Clone, PartialEq)]
pub enum OlmMessage {
    Normal(Message),
    PreKey(PreKeyMessage),
}

impl View for OlmMessage {
    type V = OlmMessageView;

    open spec fn view(&self) -> OlmMessageView {
        match self {
            OlmMessage::Normal(m) => OlmMessageView::Normal(m@),
            OlmMessage::PreKey(m) => OlmMessageView::PreKey(m@),
        }
    }
}

impl From<Message> for OlmMessage {
    fn from(m: Message) -> (r: Self) {
        OlmMessage::Normal(m)
    }
}

impl vstd::std_specs::convert::FromSpecImpl<Message> for OlmMessage {
    open spec fn obeys_from_spec() -> bool {
        true
    }

    open spec fn from_spec(m: Message) -> Self {
        OlmMessage::Normal(m)
    }
}

impl From<PreKeyMessage> for OlmMessage {
    fn from(m: PreKeyMessage) -> (r: Self) {
        OlmMessage::PreKey(m)
    }
}

impl vstd::std_specs::convert::FromSpecImpl<PreKeyMessage> for OlmMessage {
    open spec fn obeys_from_spec() -> bool {
        true
    }

    open spec fn from_spec(m: PreKeyMessage) -> Self {
        OlmMessage::PreKey(m)
    }
}

/// The wire type tag of an envelope value: 0 for pre-key, 1 for normal.
pub open spec fn olm_type(v: OlmMessageView) -> usize {
    match v {
        OlmMessageView::PreKey(_) => 0,
        OlmMessageView::Normal(_) => 1,
    }
}

/// Well-formedness of an envelope value: its kind's field widths hold.
pub open spec fn olm_wf(v: OlmMessageView) -> bool {
    match v {
        OlmMessageView::Normal(m) => msg_wf(m),
        OlmMessageView::PreKey(p) => prekey_wf(p),
    }
}

/// The binary body of an envelope value.
pub open spec fn olm_enc(v: OlmMessageView) -> Seq<u8> {
    match v {
        OlmMessageView::Normal(m) => msg_enc(m),
        OlmMessageView::PreKey(p) => prekey_enc(p),
    }
}

/// The base64 text body of an envelope value, as its UTF-8 bytes.
pub open spec fn olm_body(v: OlmMessageView) -> Seq<u8> {
    b64_encode(olm_enc(v))
}

/// Decoding of a type tag and a text body (as its UTF-8 bytes) into an
/// envelope value: tag 0 decodes as a pre-key message, tag 1 as a normal
/// message, and every other tag is rejected as `MessageType`.
pub open spec fn olm_dec(t: usize, b: Seq<u8>) -> Result<OlmMessageView, DecodeError> {
    if t == 0 {
        match body_dec_prekey(b) {
            Ok(p) => Ok(OlmMessageView::PreKey(p)),
            Err(e) => Err(e),
        }
    } else if t == 1 {
        match body_dec_msg(b) {
            Ok(m) => Ok(OlmMessageView::Normal(m)),
            Err(e) => Err(e),
        }
    } else {
        Err(DecodeError::MessageType(t))
    }
}

/// The two kinds of wire envelope.
#[derive(Debug, Clone, Copy, PartialEq, Eq, Structural)]
pub enum MessageType {
    PreKey,
    Normal,
}

impl MessageType {
    /// Maps a wire type tag to the message kind; only 0 and 1 are known.
    pub fn try_from(value: usize) -> (r: Result<MessageType, ()>)
        ensures
            r == if value == 0 {
                Ok::<MessageType, ()>(MessageType::PreKey)
            } else if value == 1 {
                Ok::<MessageType, ()>(MessageType::Normal)
            } else {
                Err::<MessageType, ()>(())
            },
    {
        match value {
            0 => Ok(MessageType::PreKey),
            1 => Ok(MessageType::Normal),
            _ => Err(()),
        }
    }

    /// The wire type tag of this message kind.
    pub fn to_usize(self) -> (r: usize)
        ensures
            r == match self {
                MessageType::PreKey => 0usize,
                MessageType::Normal => 1usize,
            },
    {
        match self {
            MessageType::PreKey => 0,
            MessageType::Normal => 1,
        }
    }
}

impl OlmMessage {
    /// The kind of this envelope, as a spec value.
    pub open spec fn message_type_spec(&self) -> MessageType {
        match self {
            OlmMessage::Normal(_) => MessageType::Normal,
            OlmMessage::PreKey(_) => MessageType::PreKey,
        }
    }

    /// Decodes an envelope from its transport parts, a numeric type tag
    /// and a base64 text body.
    pub fn from_parts(message_type: usize, ciphertext: &str) -> (r: Result<OlmMessage, DecodeError>)
        ensures
            match r {
                Ok(m) => olm_dec(message_type, encode_utf8(ciphertext@)) == Ok::<
                    OlmMessageView,
                    DecodeError,
                >(m@),
                Err(e) => olm_dec(message_type, encode_utf8(ciphertext@)) == Err::<
                    OlmMessageView,
                    DecodeError,
                >(e),
            },
    {
        if message_type == 0 {
            match PreKeyMessage::from_base64(ciphertext) {
                Ok(p) => Ok(OlmMessage::PreKey(p)),
                Err(e) => Err(e),
            }
        } else if message_type == 1 {
            match Message::from_base64(ciphertext) {
                Ok(m) => Ok(OlmMessage::Normal(m)),
                Err(e) => Err(e),
            }
        } else {
            Err(DecodeError::MessageType(message_type))
        }
    }

    /// Encodes this envelope into its transport parts; the exact inverse
    /// of `from_parts`.
    pub fn to_parts(self) -> (r: (usize, String))
        ensures
            r.0 == olm_type(self@),
            encode_utf8(r.1@) == olm_body(self@),
    {
        match self {
            OlmMessage::Normal(m) => (1, m.to_base64()),
            OlmMessage::PreKey(m) => (0, m.to_base64()),
        }
    }

    /// The innermost ciphertext bytes, for either kind uniformly.
    pub fn ciphertext(&self) -> (r: &[u8])
        ensures
            r@ == match self@ {
                OlmMessageView::Normal(m) => m.ciphertext,
                OlmMessageView::PreKey(p) => p.message.ciphertext,
            },
    {
        match self {
            OlmMessage::Normal(m) => m.ciphertext.as_slice(),
            OlmMessage::PreKey(m) => m.message.ciphertext.as_slice(),
        }
    }

    /// The kind of this envelope; a pure projection.
    pub fn message_type(&self) -> (r: MessageType)
        ensures
            r == self.message_type_spec(),
    {
        match self {
            OlmMessage::Normal(_) => MessageType::Normal,
            OlmMessage::PreKey(_) => MessageType::PreKey,
        }
    }
}

/// Every envelope held in the executable representation is well formed:
/// its keys are 32 bytes, its tag 8 bytes, its index a machine integer.
pub proof fn lemma_exec_view_wf(m: &OlmMessage)
    ensures
        olm_wf(m@),
{
}

/// Round trip: for every well-formed envelope value, decoding the type
/// tag and text body that encoding produces yields the value back.
pub proof fn lemma_parts_round_trip(v: OlmMessageView)
    requires
        olm_wf(v),
    ensures
        olm_dec(olm_type(v), olm_body(v)) == Ok::<OlmMessageView, DecodeError>(v),
{
    match v {
        OlmMessageView::Normal(m) => {
            crate::base64::lemma_b64_round_trip(msg_enc(m));
            crate::wire::lemma_msg_round_trip(m);
        },
        OlmMessageView::PreKey(p) => {
            crate::base64::lemma_b64_round_trip(prekey_enc(p));
            crate::wire::lemma_prekey_round_trip(p);
        },
    }
}

/// Decoding is canonical: whatever decodes successfully is well formed,
/// and the tag and text it came from are exactly the ones its own
/// encoding produces.
pub proof fn lemma_parts_canonical(t: usize, b: Seq<u8>, v: OlmMessageView)
    requires
        olm_dec(t, b) == Ok::<OlmMessageView, DecodeError>(v),
    ensures
        olm_wf(v),
        t == olm_type(v),
        b == olm_body(v),
{
    crate::base64::lemma_b64_canonical(b);
    if t == 0 {
        if let Some(x) = b64_decode(b) {
            crate::wire::lemma_prekey_canonical(x);
        }
    } else {
        if let Some(x) = b64_decode(b) {
            crate::wire::lemma_msg_canonical(x);
        }
    }
}

/// Type dispatch: tag 0 only ever yields a pre-key message, tag 1 only
/// a normal message, and every other tag fails with `MessageType` of
/// that tag, whatever the body holds.
pub proof fn lemma_type_dispatch(t: usize, b: Seq<u8>)
    ensures
        olm_dec(0, b) matches Ok(v) ==> v is PreKey,
        olm_dec(1, b) matches Ok(v) ==> v is Normal,
        t >= 2 ==> olm_dec(t, b) == Err::<OlmMessageView, DecodeError>(DecodeError::MessageType(t)),
{
}

/// No two transport representations decode to the same envelope value:
/// changing the type tag or any byte of the text body of a decodable
/// envelope never yields the same decoded message again.
pub proof fn lemma_codec_injective(t1: usize, b1: Seq<u8>, t2: usize, b2: Seq<u8>)
    requires
        olm_dec(t1, b1) matches Ok(v1) && olm_dec(t2, b2) == Ok::<OlmMessageView, DecodeError>(v1),
    ensures
        t1 == t2,
        b1 == b2,
{
    if let Ok(v) = olm_dec(t1, b1) {
        lemma_parts_canonical(t1, b1, v);
        lemma_parts_canonical(t2, b2, v);
    }
}

} // verus!
