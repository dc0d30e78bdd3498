//! Resume tokens: what a client shows to pick up its session after a
//! reconnect. A token is 40 bytes of payload, five little-endian 64-bit
//! fields, followed by the 32 bytes of the payload's HMAC-SHA256 tag under
//! the session's secret.

use vstd::prelude::*;
use vstd::bytes::*;
use vstd::slice::*;
use hmac::Mac;
use crate::clock::unix_time_ms;

verus! {

pub const PAYLOAD_SIZE: usize = 40;

pub const SIGNATURE_SIZE: usize = 32;

pub const SIGNED_TOKEN_SIZE: usize = 72;

pub const DEFAULT_TOKEN_EXPIRY_MS: u64 = 300_000;

pub const DEFAULT_MAX_CLOCK_SKEW_MS: u64 = 30_000;

/// The HMAC-SHA256 tag of `data` under `key`.
pub uninterp spec fn hmac_sha256_tag(key: Seq<u8>, data: Seq<u8>) -> [u8; 32];

/// `Hmac::<Sha256>` of the hmac crate, through `new_from_slice`, `update` and
/// `finalize`: the tag of `data` under `key`. The tag depends on the two
/// alone. A key of any length is taken.
#[verifier::external_body]
fn hmac_sha256(key: &[u8], data: &[u8]) -> (tag: [u8; 32])
    ensures
        tag == hmac_sha256_tag(key@, data@),
{
    let mut mac = hmac::Hmac::<sha2::Sha256>::new_from_slice(key).expect("HMAC accepts any key length");
    mac.update(data);
    mac.finalize().into_bytes().into()
}

#[derive(Clone, Copy, Debug, PartialEq, Eq, Structural)]
pub struct ResumeToken {
    pub session_id: u64,
    pub client_id: u64,
    pub last_applied_state_id: u64,
    pub last_acked_input_seq: u64,
    pub issued_at_ms: u64,
}

#[derive(Debug, Clone, Copy, PartialEq, Eq, Structural)]
pub enum ResumeResult {
    Resumed { client_id: u64, baseline_state_id: u64 },
    InvalidToken,
    ExpiredToken,
    FutureDatedToken,
    SessionMismatch,
    StateNotFound,
    ClientIdInUse,
}

/// The 40 bytes of a token's payload.
pub open spec fn spec_encode_payload(token: ResumeToken) -> Seq<u8> {
    spec_u64_to_le_bytes(token.session_id) + spec_u64_to_le_bytes(token.client_id)
        + spec_u64_to_le_bytes(token.last_applied_state_id) + spec_u64_to_le_bytes(token.last_acked_input_seq)
        + spec_u64_to_le_bytes(token.issued_at_ms)
}

/// The token that 40 bytes of payload stand for.
pub open spec fn spec_decode_payload(bytes: Seq<u8>) -> ResumeToken {
    ResumeToken {
        session_id: spec_u64_from_le_bytes(bytes.subrange(0, 8)),
        client_id: spec_u64_from_le_bytes(bytes.subrange(8, 16)),
        last_applied_state_id: spec_u64_from_le_bytes(bytes.subrange(16, 24)),
        last_acked_input_seq: spec_u64_from_le_bytes(bytes.subrange(24, 32)),
        issued_at_ms: spec_u64_from_le_bytes(bytes.subrange(32, 40)),
    }
}

/// The signed token: the payload and its tag under `secret`.
pub open spec fn spec_encode_signed(token: ResumeToken, secret: Seq<u8>) -> Seq<u8> {
    spec_encode_payload(token) + hmac_sha256_tag(secret, spec_encode_payload(token))@
}

/// Whether `bytes` are 72 bytes whose last 32 are the tag of the first 40
/// under `secret`.
pub open spec fn signature_verifies(bytes: Seq<u8>, secret: Seq<u8>) -> bool {
    &&& bytes.len() == SIGNED_TOKEN_SIZE
    &&& bytes.subrange(40, 72) == hmac_sha256_tag(secret, bytes.subrange(0, 40))@
}

/// What decoding gives: the payload's token if the signature verifies,
/// nothing otherwise.
pub open spec fn spec_decode_signed(bytes: Seq<u8>, secret: Seq<u8>) -> Option<ResumeToken> {
    if signature_verifies(bytes, secret) {
        Some(spec_decode_payload(bytes.subrange(0, 40)))
    } else {
        None
    }
}

/// Whether a token issued at `issued_at_ms` is too old at `now_ms`.
pub open spec fn spec_expired(issued_at_ms: u64, max_age_ms: u64, now_ms: u64) -> bool {
    now_ms > issued_at_ms && now_ms - issued_at_ms > max_age_ms
}

/// Whether a token claims to have been issued further in the future than
/// the clock skew allows.
pub open spec fn spec_future_dated(issued_at_ms: u64, now_ms: u64, max_skew_ms: u64) -> bool {
    issued_at_ms > now_ms + max_skew_ms
}

/// Whether `a` and `b` hold the same bytes. Every byte is looked at whatever
/// the earlier bytes were.
pub fn constant_time_eq(a: &[u8], b: &[u8]) -> (same: bool)
    ensures
        same == (a@ == b@),
{
    if a.len() != b.len() {
        return false;
    }
    let mut acc: u8 = 0;
    let mut i: usize = 0;
    assert(a@.subrange(0, 0) =~= b@.subrange(0, 0));
    while i < a.len()
        invariant
            i <= a@.len(),
            a@.len() == b@.len(),
            (acc == 0) == (a@.subrange(0, i as int) == b@.subrange(0, i as int)),
        decreases a@.len() - i,
    {
        let x = a[i];
        let y = b[i];
        let ghost prev = acc;
        acc = acc | (x ^ y);
        proof {
            assert((prev | (x ^ y)) == 0 <==> (prev == 0 && x == y)) by (bit_vector);
            let ai = a@.subrange(0, i as int);
            let bi = b@.subrange(0, i as int);
            let aj = a@.subrange(0, i + 1);
            let bj = b@.subrange(0, i + 1);
            if ai == bi && x == y {
                assert(aj =~= bj) by {
                    assert forall|k: int| 0 <= k < i + 1 implies aj[k] == bj[k] by {
                        if k < i {
                            assert(ai[k] == bi[k]);
                        }
                    }
                }
            }
            if aj == bj {
                assert(aj[i as int] == bj[i as int]);
                assert(ai =~= bi) by {
                    assert forall|k: int| 0 <= k < i implies ai[k] == bi[k] by {
                        assert(aj[k] == bj[k]);
                    }
                }
            }
        }
        i += 1;
    }
    proof {
        assert(a@.subrange(0, i as int) =~= a@);
        assert(b@.subrange(0, i as int) =~= b@);
    }
    acc == 0
}

impl ResumeToken {
    /// A token issued at `issued_at_ms`.
    pub fn new_at(
        session_id: u64,
        client_id: u64,
        last_applied_state_id: u64,
        last_acked_input_seq: u64,
        issued_at_ms: u64,
    ) -> (token: ResumeToken)
        ensures
            token == (ResumeToken {
                session_id,
                client_id,
                last_applied_state_id,
                last_acked_input_seq,
                issued_at_ms,
            }),
    {
        ResumeToken { session_id, client_id, last_applied_state_id, last_acked_input_seq, issued_at_ms }
    }

    /// A token issued now, by the system clock.
    pub fn new(session_id: u64, client_id: u64, last_applied_state_id: u64, last_acked_input_seq: u64) -> (token:
        ResumeToken)
        ensures
            token.session_id == session_id,
            token.client_id == client_id,
            token.last_applied_state_id == last_applied_state_id,
            token.last_acked_input_seq == last_acked_input_seq,
    {
        let issued_at_ms = unix_time_ms();
        Self::new_at(session_id, client_id, last_applied_state_id, last_acked_input_seq, issued_at_ms)
    }

    fn encode_payload(&self) -> (buf: Vec<u8>)
        ensures
            buf@ == spec_encode_payload(*self),
            buf@.len() == PAYLOAD_SIZE,
    {
        proof {
            lemma_auto_spec_u64_to_from_le_bytes();
        }
        let mut buf: Vec<u8> = u64_to_le_bytes(self.session_id);
        let mut part = u64_to_le_bytes(self.client_id);
        buf.append(&mut part);
        let mut part = u64_to_le_bytes(self.last_applied_state_id);
        buf.append(&mut part);
        let mut part = u64_to_le_bytes(self.last_acked_input_seq);
        buf.append(&mut part);
        let mut part = u64_to_le_bytes(self.issued_at_ms);
        buf.append(&mut part);
        buf
    }

    fn decode_payload(bytes: &[u8]) -> (r: Option<ResumeToken>)
        ensures
            bytes@.len() == PAYLOAD_SIZE ==> r == Some(spec_decode_payload(bytes@)),
            bytes@.len() != PAYLOAD_SIZE ==> r.is_none(),
    {
        if bytes.len() != PAYLOAD_SIZE {
            return None;
        }
        Some(
            ResumeToken {
                session_id: u64_from_le_bytes(slice_subrange(bytes, 0, 8)),
                client_id: u64_from_le_bytes(slice_subrange(bytes, 8, 16)),
                last_applied_state_id: u64_from_le_bytes(slice_subrange(bytes, 16, 24)),
                last_acked_input_seq: u64_from_le_bytes(slice_subrange(bytes, 24, 32)),
                issued_at_ms: u64_from_le_bytes(slice_subrange(bytes, 32, 40)),
            },
        )
    }

    /// The token as bytes: its payload, then the payload's tag under
    /// `secret`.
    pub fn encode_signed(&self, secret: &[u8]) -> (bytes: Vec<u8>)
        ensures
            bytes@ == spec_encode_signed(*self, secret@),
            bytes@.len() == SIGNED_TOKEN_SIZE,
    {
        let mut result = self.encode_payload();
        let signature = hmac_sha256(secret, result.as_slice());
        let mut i: usize = 0;
        let ghost payload = result@;
        while i < 32
            invariant
                i <= 32,
                payload.len() == 40,
                signature@.len() == 32,
                result@ == payload + signature@.subrange(0, i as int),
            decreases 32 - i,
        {
            result.push(signature[i]);
            i += 1;
            assert(result@ =~= payload + signature@.subrange(0, i as int));
        }
        assert(signature@.subrange(0, 32) =~= signature@);
        result
    }

    /// Reads a signed token. Bytes of another length than 72, and bytes whose
    /// signature does not verify under `secret`, give nothing.
    pub fn decode_signed(bytes: &[u8], secret: &[u8]) -> (r: Option<ResumeToken>)
        ensures
            r == spec_decode_signed(bytes@, secret@),
    {
        if bytes.len() != SIGNED_TOKEN_SIZE {
            return None;
        }
        let payload = slice_subrange(bytes, 0, 40);
        let signature = slice_subrange(bytes, 40, 72);
        let expected = hmac_sha256(secret, payload);
        if !constant_time_eq(signature, expected.as_slice()) {
            return None;
        }
        Self::decode_payload(payload)
    }

    /// Whether the token is too old now, by the system clock.
    pub fn is_expired(&self, max_age_ms: u64) -> (b: bool)
        ensures
            exists|now_ms: u64| b == #[trigger] spec_expired(self.issued_at_ms, max_age_ms, now_ms),
    {
        let now_ms = unix_time_ms();
        self.is_expired_at(max_age_ms, now_ms)
    }

    /// Whether the token is older than `max_age_ms` at `current_time_ms`.
    pub fn is_expired_at(&self, max_age_ms: u64, current_time_ms: u64) -> (b: bool)
        ensures
            b == spec_expired(self.issued_at_ms, max_age_ms, current_time_ms),
    {
        current_time_ms > self.issued_at_ms && current_time_ms - self.issued_at_ms > max_age_ms
    }

    /// Whether the token's time of issue is acceptable at `current_time_ms`:
    /// not further in the future than `max_skew_ms`, and not longer ago than
    /// `max_age_ms`.
    pub fn is_valid_timestamp(&self, max_age_ms: u64, current_time_ms: u64, max_skew_ms: u64) -> (b: bool)
        ensures
            b == (!spec_future_dated(self.issued_at_ms, current_time_ms, max_skew_ms) && !spec_expired(self.issued_at_ms, max_age_ms, current_time_ms)),
    {
        if self.issued_at_ms > current_time_ms && self.issued_at_ms - current_time_ms > max_skew_ms {
            return false;
        }
        !self.is_expired_at(max_age_ms, current_time_ms)
    }

    pub fn default_expiry_ms() -> (ms: u64)
        ensures
            ms == DEFAULT_TOKEN_EXPIRY_MS,
    {
        DEFAULT_TOKEN_EXPIRY_MS
    }

    pub fn default_max_clock_skew_ms() -> (ms: u64)
        ensures
            ms == DEFAULT_MAX_CLOCK_SKEW_MS,
    {
        DEFAULT_MAX_CLOCK_SKEW_MS
    }
}

/// A payload read back is the token that was written.
pub proof fn lemma_payload_roundtrip(token: ResumeToken)
    ensures
        spec_encode_payload(token).len() == PAYLOAD_SIZE,
        spec_decode_payload(spec_encode_payload(token)) == token,
{
    lemma_auto_spec_u64_to_from_le_bytes();
    let p = spec_encode_payload(token);
    assert(p.subrange(0, 8) =~= spec_u64_to_le_bytes(token.session_id));
    assert(p.subrange(8, 16) =~= spec_u64_to_le_bytes(token.client_id));
    assert(p.subrange(16, 24) =~= spec_u64_to_le_bytes(token.last_applied_state_id));
    assert(p.subrange(24, 32) =~= spec_u64_to_le_bytes(token.last_acked_input_seq));
    assert(p.subrange(32, 40) =~= spec_u64_to_le_bytes(token.issued_at_ms));
}

/// A signed token read back under the secret it was signed with is the token
/// that was signed.
pub proof fn lemma_signed_roundtrip(token: ResumeToken, secret: Seq<u8>)
    ensures
        spec_encode_signed(token, secret).len() == SIGNED_TOKEN_SIZE,
        spec_decode_signed(spec_encode_signed(token, secret), secret) == Some(token),
{
    lemma_payload_roundtrip(token);
    let p = spec_encode_payload(token);
    let tag = hmac_sha256_tag(secret, p);
    let bytes = spec_encode_signed(token, secret);
    assert(tag@.len() == 32);
    assert(bytes.subrange(0, 40) =~= p);
    assert(bytes.subrange(40, 72) =~= tag@);
}

/// A token whose signature bytes were changed is rejected: bytes that agree
/// with a signed token in the payload and differ from it anywhere else give
/// nothing.
pub proof fn lemma_tampered_signature_rejected(token: ResumeToken, secret: Seq<u8>, tampered: Seq<u8>)
    requires
        tampered != spec_encode_signed(token, secret),
        tampered.len() == SIGNED_TOKEN_SIZE ==> tampered.subrange(0, 40) == spec_encode_payload(token),
    ensures
        spec_decode_signed(tampered, secret).is_none(),
{
    lemma_payload_roundtrip(token);
    let p = spec_encode_payload(token);
    let tag = hmac_sha256_tag(secret, p);
    let good = spec_encode_signed(token, secret);
    assert(tag@.len() == 32);
    if signature_verifies(tampered, secret) {
        assert(tampered =~= good) by {
            assert forall|i: int| 0 <= i < 72 implies tampered[i] == good[i] by {
                if i < 40 {
                    assert(tampered.subrange(0, 40)[i] == p[i]);
                } else {
                    assert(tampered.subrange(40, 72)[i - 40] == tag@[i - 40]);
                }
            }
        }
    }
}

/// Whatever decodes carries the tag of its own payload: bytes are accepted
/// under a secret only if their last 32 bytes are the HMAC-SHA256 tag of
/// their first 40 under that secret. So a changed payload, or another
/// secret, is rejected unless it gives the very tag that the bytes carry.
pub proof fn lemma_accepted_only_with_tag(bytes: Seq<u8>, secret: Seq<u8>)
    ensures
        spec_decode_signed(bytes, secret).is_some() <==> signature_verifies(bytes, secret),
        spec_decode_signed(bytes, secret).is_some() ==> bytes.len() == SIGNED_TOKEN_SIZE
            && bytes.subrange(40, 72) == hmac_sha256_tag(secret, bytes.subrange(0, 40))@,
{
}

/// A token signed under one secret is rejected under another, unless the two
/// secrets give the payload one and the same tag.
pub proof fn lemma_other_secret_rejected(token: ResumeToken, secret: Seq<u8>, other: Seq<u8>)
    requires
        hmac_sha256_tag(other, spec_encode_payload(token)) != hmac_sha256_tag(secret, spec_encode_payload(token)),
    ensures
        spec_decode_signed(spec_encode_signed(token, secret), other).is_none(),
{
    lemma_payload_roundtrip(token);
    let p = spec_encode_payload(token);
    let tag = hmac_sha256_tag(secret, p);
    let tag2 = hmac_sha256_tag(other, p);
    let bytes = spec_encode_signed(token, secret);
    assert(tag@.len() == 32);
    assert(tag2@.len() == 32);
    assert(bytes.subrange(0, 40) =~= p);
    assert(bytes.subrange(40, 72) =~= tag@);
    if tag@ == tag2@ {
        assert(tag =~= tag2);
    }
}

} // verus!
