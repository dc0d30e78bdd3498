//! Stream framing: every message on the stream is its length as a varint,
//! followed by that many bytes. Datagrams carry a message bare.

use vstd::prelude::*;
use vstd::slice::*;

verus! {

/// The longest frame body that is accepted: 1 MB.
pub const MAX_FRAME_SIZE: usize = 1_048_576;

/// The most bytes that a varint takes.
pub const MAX_VARINT_LEN: usize = 10;

#[derive(Debug, Clone, Copy, PartialEq, Eq)]
pub enum DecodeResult<T> {
    Complete(T),
    Incomplete,
}

/// Why a frame header is refused. Either closes the connection.
#[derive(Debug, Clone, Copy, PartialEq, Eq, Structural)]
pub enum FramingError {
    /// The header is no varint, though ten bytes or more are there.
    InvalidVarint,
    /// The header announces more than `MAX_FRAME_SIZE` bytes.
    FrameTooLarge { len: u64 },
}

/// One frame taken off the front of a buffer: its body, which is an encoded
/// envelope, and how many bytes of the buffer header and body took together.
#[derive(Debug, Clone, PartialEq, Eq)]
pub struct EnvelopeFrame {
    pub payload: Vec<u8>,
    pub consumed: usize,
}

/// The LEB128 reading of the front of `bytes`, looking at no more than
/// `budget` bytes: the value and the number of bytes it took. Every byte
/// gives its low seven bits, lowest first, and a byte below 0x80 is the
/// last. There is no reading if no byte below 0x80 comes in time.
pub open spec fn leb128(bytes: Seq<u8>, budget: nat) -> Option<(nat, nat)>
    decreases budget,
{
    if budget == 0 || bytes.len() == 0 {
        None
    } else if bytes[0] < 0x80 {
        Some((bytes[0] as nat, 1nat))
    } else {
        match leb128(bytes.drop_first(), (budget - 1) as nat) {
            Some((value, len)) => Some((((bytes[0] - 0x80) + 0x80 * value) as nat, len + 1)),
            None => None,
        }
    }
}

/// The varint at the front of `bytes`: the LEB128 reading of at most ten
/// bytes, if its value fits into 64 bits.
pub open spec fn spec_decode_varint(bytes: Seq<u8>) -> Option<(u64, nat)> {
    match leb128(bytes, MAX_VARINT_LEN as nat) {
        Some((value, len)) => if value <= u64::MAX {
            Some((value as u64, len))
        } else {
            None
        },
        None => None,
    }
}

/// `value` as a varint: its low seven bits first, every byte but the last
/// with the high bit set.
pub open spec fn spec_encode_varint(value: u64) -> Seq<u8>
    decreases value,
{
    if value < 0x80 {
        seq![value as u8]
    } else {
        seq![((value % 0x80) + 0x80) as u8] + spec_encode_varint(value / 0x80)
    }
}

/// A frame: the body's length as a varint, then the body.
pub open spec fn spec_encode_frame(payload: Seq<u8>) -> Seq<u8> {
    spec_encode_varint(payload.len() as u64) + payload
}

/// What the decoder makes of a buffer.
///
/// An empty buffer is incomplete. A header that is no varint is incomplete
/// while fewer than ten bytes are there, and an error from then on. A header
/// that announces more than `MAX_FRAME_SIZE` bytes is an error. A body that
/// is not all there yet is incomplete. Otherwise the frame is complete.
pub open spec fn spec_decode_frame(buf: Seq<u8>) -> Result<DecodeResult<(Seq<u8>, nat)>, FramingError> {
    if buf.len() == 0 {
        Ok(DecodeResult::Incomplete)
    } else {
        match spec_decode_varint(buf) {
            None => if buf.len() < MAX_VARINT_LEN {
                Ok(DecodeResult::Incomplete)
            } else {
                Err(FramingError::InvalidVarint)
            },
            Some((len, header)) => if len > MAX_FRAME_SIZE {
                Err(FramingError::FrameTooLarge { len })
            } else if buf.len() < header + len {
                Ok(DecodeResult::Incomplete)
            } else {
                Ok(DecodeResult::Complete((buf.subrange(header as int, header + len), (header + len) as nat)))
            },
        }
    }
}

/// `prost::encoding::decode_varint` on a byte slice: the varint at the front
/// of the slice, with the number of bytes that follow it; nothing where the
/// slice does not start with a varint. prost reads LEB128 from at most ten
/// bytes and refuses a tenth byte of 2 or more, which is exactly a value that
/// does not fit into 64 bits.
#[verifier::external_body]
fn prost_decode_varint(bytes: &[u8]) -> (r: Option<(u64, usize)>)
    ensures
        r.is_some() == spec_decode_varint(bytes@).is_some(),
        r matches Some((value, rest)) ==> rest <= bytes@.len() && spec_decode_varint(bytes@) == Some((value, (bytes@.len() - rest) as nat)),
{
    let mut peek = bytes;
    match prost::encoding::decode_varint(&mut peek) {
        Ok(value) => Some((value, peek.len())),
        Err(_) => None,
    }
}

/// `prost::encoding::encode_varint` into a vector: appends `value` as a
/// varint.
#[verifier::external_body]
fn prost_encode_varint(value: u64, buf: &mut Vec<u8>)
    ensures
        final(buf)@ == old(buf)@ + spec_encode_varint(value),
{
    prost::encoding::encode_varint(value, buf)
}

/// Frames an encoded envelope for the stream: its length as a varint, then
/// its bytes.
pub fn encode_envelope(payload: &[u8]) -> (framed: Vec<u8>)
    ensures
        framed@ == spec_encode_frame(payload@),
{
    let mut framed: Vec<u8> = Vec::new();
    prost_encode_varint(payload.len() as u64, &mut framed);
    let ghost header = framed@;
    let mut i: usize = 0;
    while i < payload.len()
        invariant
            i <= payload@.len(),
            framed@ == header + payload@.subrange(0, i as int),
        decreases payload@.len() - i,
    {
        framed.push(payload[i]);
        i += 1;
        assert(framed@ =~= header + payload@.subrange(0, i as int));
    }
    assert(payload@.subrange(0, i as int) =~= payload@);
    framed
}

/// Takes one framed envelope off the front of a buffer, if a whole frame is
/// there. The buffer is not changed: the caller drops `consumed` bytes of it
/// and reads the envelope from the frame's body.
pub fn decode_envelope(buf: &[u8]) -> (r: Result<DecodeResult<EnvelopeFrame>, FramingError>)
    ensures
        match r {
            Ok(DecodeResult::Complete(frame)) => spec_decode_frame(buf@) == Ok::<DecodeResult<(Seq<u8>, nat)>, FramingError>(
                DecodeResult::Complete((frame.payload@, frame.consumed as nat)),
            ),
            Ok(DecodeResult::Incomplete) => spec_decode_frame(buf@) == Ok::<DecodeResult<(Seq<u8>, nat)>, FramingError>(
                DecodeResult::Incomplete,
            ),
            Err(e) => spec_decode_frame(buf@) == Err::<DecodeResult<(Seq<u8>, nat)>, FramingError>(e),
        },
{
    if buf.len() == 0 {
        return Ok(DecodeResult::Incomplete);
    }
    let (len, rest) = match prost_decode_varint(buf) {
        Some(parsed) => parsed,
        None => {
            if buf.len() < MAX_VARINT_LEN {
                return Ok(DecodeResult::Incomplete);
            }
            return Err(FramingError::InvalidVarint);
        },
    };
    if len > MAX_FRAME_SIZE as u64 {
        return Err(FramingError::FrameTooLarge { len });
    }
    let header = buf.len() - rest;
    let body = len as usize;
    if rest < body {
        return Ok(DecodeResult::Incomplete);
    }
    let payload = slice_to_vec(slice_subrange(buf, header, header + body));
    Ok(DecodeResult::Complete(EnvelopeFrame { payload, consumed: header + body }))
}

/// A varint takes between one and ten bytes.
pub proof fn lemma_varint_len(value: u64)
    ensures
        1 <= spec_encode_varint(value).len() <= MAX_VARINT_LEN,
{
    assert(pow128(10) == 1180591620717411303424) by {
        reveal_with_fuel(pow128, 11);
    }
    lemma_varint_len_bound(value, 10);
}

/// 128 to the power of `k`.
pub open spec fn pow128(k: nat) -> nat
    decreases k,
{
    if k == 0 {
        1
    } else {
        128 * pow128((k - 1) as nat)
    }
}

proof fn lemma_varint_len_bound(value: u64, k: nat)
    requires
        k >= 1,
        value < pow128(k),
    ensures
        1 <= spec_encode_varint(value).len() <= k,
    decreases k,
{
    if value < 0x80 {
    } else {
        assert(pow128(1) == 128) by {
            reveal_with_fuel(pow128, 2);
        }
        assert(k >= 2);
        assert(pow128(k) == 128 * pow128((k - 1) as nat));
        assert(value / 0x80 < pow128((k - 1) as nat)) by (nonlinear_arith)
            requires
                value < 128 * pow128((k - 1) as nat),
        ;
        lemma_varint_len_bound((value / 0x80) as u64, (k - 1) as nat);
    }
}

/// Reading back a varint gives the value that was written, whatever
/// follows it.
pub proof fn lemma_varint_roundtrip(value: u64, rest: Seq<u8>)
    ensures
        spec_decode_varint(spec_encode_varint(value) + rest) == Some((value, spec_encode_varint(value).len())),
{
    lemma_varint_len(value);
    lemma_leb128_roundtrip(value, rest, MAX_VARINT_LEN as nat);
}

proof fn lemma_leb128_roundtrip(value: u64, rest: Seq<u8>, budget: nat)
    requires
        budget >= spec_encode_varint(value).len(),
    ensures
        leb128(spec_encode_varint(value) + rest, budget) == Some((value as nat, spec_encode_varint(value).len())),
    decreases value,
{
    let enc = spec_encode_varint(value);
    let all = enc + rest;
    if value < 0x80 {
        assert(all[0] == value as u8);
    } else {
        let tail = spec_encode_varint(value / 0x80);
        assert(enc == seq![((value % 0x80) + 0x80) as u8] + tail);
        assert(all[0] == ((value % 0x80) + 0x80) as u8);
        assert(all.drop_first() =~= tail + rest);
        lemma_leb128_roundtrip(value / 0x80, rest, (budget - 1) as nat);
        assert((all[0] - 0x80) + 0x80 * (value / 0x80) == value);
    }
}

/// A frame read back is the body that was framed: a buffer that starts with
/// the frame of a body of at most `MAX_FRAME_SIZE` bytes decodes to that
/// body and consumes exactly the frame, whatever follows.
pub proof fn lemma_frame_roundtrip(payload: Seq<u8>, rest: Seq<u8>)
    requires
        payload.len() <= MAX_FRAME_SIZE,
    ensures
        spec_decode_frame(spec_encode_frame(payload) + rest) == Ok::<DecodeResult<(Seq<u8>, nat)>, FramingError>(
            DecodeResult::Complete((payload, spec_encode_frame(payload).len())),
        ),
{
    let header = spec_encode_varint(payload.len() as u64);
    let buf = spec_encode_frame(payload) + rest;
    lemma_varint_len(payload.len() as u64);
    assert(buf =~= header + (payload + rest));
    lemma_varint_roundtrip(payload.len() as u64, payload + rest);
    assert(buf.subrange(header.len() as int, (header.len() + payload.len()) as int) =~= payload);
}

/// A frame that is cut short is incomplete, never an error: every proper
/// prefix of the frame of a body of at most `MAX_FRAME_SIZE` bytes that
/// holds the whole header decodes to Incomplete.
pub proof fn lemma_cut_frame_incomplete(payload: Seq<u8>, n: int)
    requires
        payload.len() <= MAX_FRAME_SIZE,
        spec_encode_varint(payload.len() as u64).len() <= n < spec_encode_frame(payload).len(),
    ensures
        spec_decode_frame(spec_encode_frame(payload).subrange(0, n)) == Ok::<DecodeResult<(Seq<u8>, nat)>, FramingError>(
            DecodeResult::Incomplete,
        ),
{
    let header = spec_encode_varint(payload.len() as u64);
    let h = header.len() as int;
    let cut = spec_encode_frame(payload).subrange(0, n);
    lemma_varint_len(payload.len() as u64);
    assert(cut =~= header + payload.subrange(0, n - h));
    lemma_varint_roundtrip(payload.len() as u64, payload.subrange(0, n - h));
}

} // verus!
