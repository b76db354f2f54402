//! Segments and their wire format.
//!
//! | offset | size | field                                   |
//! |--------|------|-----------------------------------------|
//! | 0      | 4    | total length, header included (BE u32)  |
//! | 4      | 1    | type tag: 0 Data, 1 Ack, 2 Syn          |
//! | 5      | 8    | sequence number (BE u64)                |
//! | 13     | rest | payload                                 |
use crate::buffers::{
    be32_bytes, be64_bytes, bytes_copy_from_slice, bytes_from_vec, bytes_len, bytes_mut_view,
    bytes_mut_with_capacity, bytes_view, put_bytes, put_u32, put_u64, put_u8,
};
use bytes::{Bytes, BytesMut};
use vstd::prelude::*;
use vstd::slice::slice_subrange;

verus! {

/// Size of the fixed header: total length (4), type tag (1), sequence (8).
pub const FIXED_HEADER_LEN: usize = 13;

/// The closed set of segment kinds.
#[derive(Debug, Clone, Copy, PartialEq, Eq, Structural)]
pub enum SegmentType {
    Data,
    Ack,
    Syn,
}

/// Why a segment could not be encoded or a buffer could not be decoded.
#[derive(Debug, Clone, Copy, PartialEq, Eq, Structural)]
pub enum SegmentError {
    /// The buffer cannot even hold the 4-byte length field.
    TooShort,
    /// The declared total length (first field) is below the header size or
    /// beyond the buffer's length (second field).
    InvalidTotalLen(u32, usize),
    /// The type tag is none of the known ones.
    UnknownFrameType(u8),
    /// The total length that encoding would need does not fit in 32 bits.
    TotalLenOverflow(usize),
}

/// A typed, sequenced chunk of payload bytes.
#[derive(Debug)]
pub struct Segment {
    pub segment_type: SegmentType,
    pub seq: u64,
    pub data: Bytes,
}

/// The mathematical content of a segment.
pub struct SegmentView {
    pub segment_type: SegmentType,
    pub seq: u64,
    pub payload: Seq<u8>,
}

impl View for Segment {
    type V = SegmentView;

    open spec fn view(&self) -> SegmentView {
        SegmentView { segment_type: self.segment_type, seq: self.seq, payload: bytes_view(self.data) }
    }
}

/// The wire tag of a kind.
pub open spec fn tag_of(t: SegmentType) -> u8 {
    match t {
        SegmentType::Data => 0,
        SegmentType::Ack => 1,
        SegmentType::Syn => 2,
    }
}

/// The kind a wire tag stands for, if any.
pub open spec fn type_of_tag(tag: u8) -> Option<SegmentType> {
    if tag == 0 {
        Some(SegmentType::Data)
    } else if tag == 1 {
        Some(SegmentType::Ack)
    } else if tag == 2 {
        Some(SegmentType::Syn)
    } else {
        None
    }
}

/// A big-endian 32-bit integer read from the first four bytes of `s`.
pub open spec fn be32_value(s: Seq<u8>) -> u32
    recommends
        s.len() >= 4,
{
    ((s[0] as u32) << 24u32) | ((s[1] as u32) << 16u32) | ((s[2] as u32) << 8u32) | (s[3] as u32)
}

/// A big-endian 64-bit integer read from the first eight bytes of `s`.
pub open spec fn be64_value(s: Seq<u8>) -> u64
    recommends
        s.len() >= 8,
{
    ((s[0] as u64) << 56u64) | ((s[1] as u64) << 48u64) | ((s[2] as u64) << 40u64) | ((
    s[3] as u64) << 32u64) | ((s[4] as u64) << 24u64) | ((s[5] as u64) << 16u64) | ((
    s[6] as u64) << 8u64) | (s[7] as u64)
}

/// The total encoded length of a segment with a payload of `payload_len` bytes.
pub open spec fn total_len_of(payload_len: nat) -> nat {
    (FIXED_HEADER_LEN + payload_len) as nat
}

/// Whether a segment's total length fits in the 32-bit length field.
pub open spec fn encodable(s: SegmentView) -> bool {
    total_len_of(s.payload.len()) <= u32::MAX
}

/// The bytes of an encodable segment on the wire.
pub open spec fn encoded(s: SegmentView) -> Seq<u8> {
    be32_bytes(total_len_of(s.payload.len()) as u32) + seq![tag_of(s.segment_type)]
        + be64_bytes(s.seq) + s.payload
}

/// What encoding a segment gives.
pub open spec fn encode_spec(s: SegmentView) -> Result<Seq<u8>, SegmentError> {
    if encodable(s) {
        Ok(encoded(s))
    } else {
        Err(SegmentError::TotalLenOverflow(total_len_of(s.payload.len()) as usize))
    }
}

/// What decoding a received buffer gives.
pub open spec fn decode_spec(buf: Seq<u8>) -> Result<SegmentView, SegmentError> {
    if buf.len() < 4 {
        Err(SegmentError::TooShort)
    } else {
        let total = be32_value(buf);
        if total > buf.len() || total < FIXED_HEADER_LEN {
            Err(SegmentError::InvalidTotalLen(total, buf.len() as usize))
        } else {
            match type_of_tag(buf[4]) {
                None => Err(SegmentError::UnknownFrameType(buf[4])),
                Some(t) => Ok(
                    SegmentView {
                        segment_type: t,
                        seq: be64_value(buf.subrange(5, 13)),
                        payload: buf.subrange(13, total as int),
                    },
                ),
            }
        }
    }
}

/// Reading back the big-endian bytes of a 32-bit integer gives the integer.
pub proof fn lemma_be32_round_trip(n: u32)
    ensures
        be32_value(be32_bytes(n)) == n,
{
    let b = be32_bytes(n);
    assert(b[0] == (n >> 24u32) as u8 && b[1] == (n >> 16u32) as u8 && b[2] == (n >> 8u32) as u8
        && b[3] == n as u8);
    assert(((((n >> 24u32) as u8) as u32) << 24u32) | ((((n >> 16u32) as u8) as u32) << 16u32) | ((
    ((n >> 8u32) as u8) as u32) << 8u32) | ((n as u8) as u32) == n) by (bit_vector);
}

/// Reading back the big-endian bytes of a 64-bit integer gives the integer.
pub proof fn lemma_be64_round_trip(n: u64)
    ensures
        be64_value(be64_bytes(n)) == n,
{
    let b = be64_bytes(n);
    assert(b[0] == (n >> 56u64) as u8 && b[1] == (n >> 48u64) as u8 && b[2] == (n >> 40u64) as u8
        && b[3] == (n >> 32u64) as u8 && b[4] == (n >> 24u64) as u8 && b[5] == (n >> 16u64) as u8
        && b[6] == (n >> 8u64) as u8 && b[7] == n as u8);
    assert(((((n >> 56u64) as u8) as u64) << 56u64) | ((((n >> 48u64) as u8) as u64) << 48u64) | ((
    ((n >> 40u64) as u8) as u64) << 40u64) | ((((n >> 32u64) as u8) as u64) << 32u64) | ((((n
        >> 24u64) as u8) as u64) << 24u64) | ((((n >> 16u64) as u8) as u64) << 16u64) | ((((n
        >> 8u64) as u8) as u64) << 8u64) | ((n as u8) as u64) == n) by (bit_vector);
}

/// The length field of an encoded segment, read as a big-endian integer,
/// equals the length of the whole encoded buffer.
pub proof fn lemma_length_field(s: SegmentView)
    requires
        encodable(s),
    ensures
        be32_value(encoded(s)) as int == encoded(s).len(),
{
    let e = encoded(s);
    let total = total_len_of(s.payload.len()) as u32;
    lemma_be32_round_trip(total);
    assert(e.subrange(0, 4) =~= be32_bytes(total));
    assert(e[0] == be32_bytes(total)[0] && e[1] == be32_bytes(total)[1] && e[2] == be32_bytes(
        total,
    )[2] && e[3] == be32_bytes(total)[3]);
}

/// Decoding the encoding of an encodable segment gives back the same kind,
/// sequence number and payload.
pub proof fn lemma_round_trip(s: SegmentView)
    requires
        encodable(s),
    ensures
        decode_spec(encoded(s)) == Ok::<SegmentView, SegmentError>(s),
{
    let e = encoded(s);
    lemma_length_field(s);
    lemma_be64_round_trip(s.seq);
    assert(e[4] == tag_of(s.segment_type));
    assert(type_of_tag(tag_of(s.segment_type)) == Some(s.segment_type));
    assert(e.subrange(5, 13) =~= be64_bytes(s.seq));
    assert(e.subrange(13, e.len() as int) =~= s.payload);
}

/// A buffer too short to hold the length field is rejected as `TooShort`.
pub proof fn lemma_short_buffer_rejected(buf: Seq<u8>)
    requires
        buf.len() < 4,
    ensures
        decode_spec(buf) == Err::<SegmentView, SegmentError>(SegmentError::TooShort),
{
}

/// A buffer whose declared total length is below the header size or beyond
/// its own length is rejected as `InvalidTotalLen`, carrying the declared
/// length and the buffer's length exactly.
pub proof fn lemma_inconsistent_length_rejected(buf: Seq<u8>)
    requires
        4 <= buf.len() <= usize::MAX,
        be32_value(buf) > buf.len() || be32_value(buf) < FIXED_HEADER_LEN,
    ensures
        decode_spec(buf) == Err::<SegmentView, SegmentError>(
            SegmentError::InvalidTotalLen(be32_value(buf), buf.len() as usize),
        ),
        buf.len() as usize == buf.len(),
{
}

/// A segment whose total length exceeds the 32-bit length field cannot be
/// encoded: encoding gives `TotalLenOverflow` with that length and no buffer.
pub proof fn lemma_overflow_rejected(s: SegmentView)
    requires
        total_len_of(s.payload.len()) > u32::MAX,
        total_len_of(s.payload.len()) <= usize::MAX,
    ensures
        encode_spec(s) == Err::<Seq<u8>, SegmentError>(
            SegmentError::TotalLenOverflow(total_len_of(s.payload.len()) as usize),
        ),
        total_len_of(s.payload.len()) as usize == total_len_of(s.payload.len()),
{
}

impl SegmentType {
    /// The wire tag of this kind.
    pub fn tag(self) -> (r: u8)
        ensures
            r == tag_of(self),
    {
        match self {
            SegmentType::Data => 0,
            SegmentType::Ack => 1,
            SegmentType::Syn => 2,
        }
    }

    /// The kind a wire tag stands for; unknown tags are rejected, never
    /// defaulted.
    pub fn from_tag(tag: u8) -> (r: Option<SegmentType>)
        ensures
            r == type_of_tag(tag),
    {
        if tag == 0 {
            Some(SegmentType::Data)
        } else if tag == 1 {
            Some(SegmentType::Ack)
        } else if tag == 2 {
            Some(SegmentType::Syn)
        } else {
            None
        }
    }
}

/// The total encoded length for a payload of `payload_len` bytes, or
/// `TotalLenOverflow` with that length when it does not fit in 32 bits.
pub fn total_len_checked(payload_len: usize) -> (r: Result<u32, SegmentError>)
    requires
        payload_len + FIXED_HEADER_LEN <= usize::MAX,
    ensures
        match r {
            Ok(n) => total_len_of(payload_len as nat) <= u32::MAX && n == total_len_of(
                payload_len as nat,
            ),
            Err(e) => total_len_of(payload_len as nat) > u32::MAX && e
                == SegmentError::TotalLenOverflow(total_len_of(payload_len as nat) as usize),
        },
{
    let total_len = FIXED_HEADER_LEN + payload_len;
    if total_len > u32::MAX as usize {
        Err(SegmentError::TotalLenOverflow(total_len))
    } else {
        Ok(total_len as u32)
    }
}

impl Segment {
    /// A segment of the given kind and sequence number that owns `data`.
    pub fn new(segment_type: SegmentType, seq: u64, data: Vec<u8>) -> (r: Segment)
        ensures
            r@ == (SegmentView { segment_type, seq, payload: data@ }),
    {
        Segment { segment_type, seq, data: bytes_from_vec(data) }
    }

    /// Writes the segment as a length-prefixed buffer, or fails with
    /// `TotalLenOverflow` before writing anything when its total length does
    /// not fit in the 32-bit length field.
    pub fn encode(&self) -> (r: Result<BytesMut, SegmentError>)
        requires
            self@.payload.len() + FIXED_HEADER_LEN <= isize::MAX,
        ensures
            match r {
                Ok(buf) => encode_spec(self@) == Ok::<Seq<u8>, SegmentError>(bytes_mut_view(buf)),
                Err(e) => encode_spec(self@) == Err::<Seq<u8>, SegmentError>(e),
            },
    {
        let data_len = bytes_len(&self.data);
        let total_len_u32 = match total_len_checked(data_len) {
            Ok(n) => n,
            Err(e) => return Err(e),
        };
        let mut buf = bytes_mut_with_capacity(total_len_u32 as usize);
        put_u32(&mut buf, total_len_u32);
        put_u8(&mut buf, self.segment_type.tag());
        put_u64(&mut buf, self.seq);
        put_bytes(&mut buf, &self.data);
        proof {
            assert(bytes_mut_view(buf) =~= encoded(self@));
        }
        Ok(buf)
    }

    /// Reads a segment back from a received buffer, validating the length
    /// field, then the type tag, before copying the payload out.
    pub fn decode(buf: &[u8]) -> (r: Result<Segment, SegmentError>)
        ensures
            match r {
                Ok(s) => decode_spec(buf@) == Ok::<SegmentView, SegmentError>(s@),
                Err(e) => decode_spec(buf@) == Err::<SegmentView, SegmentError>(e),
            },
    {
        if buf.len() < 4 {
            return Err(SegmentError::TooShort);
        }
        let total_len_declared: u32 = ((buf[0] as u32) << 24u32) | ((buf[1] as u32) << 16u32)
            | ((buf[2] as u32) << 8u32) | (buf[3] as u32);
        let total_len = total_len_declared as usize;
        if total_len > buf.len() || total_len < FIXED_HEADER_LEN {
            return Err(SegmentError::InvalidTotalLen(total_len_declared, buf.len()));
        }
        let segment_type = match SegmentType::from_tag(buf[4]) {
            Some(t) => t,
            None => return Err(SegmentError::UnknownFrameType(buf[4])),
        };
        let seq: u64 = ((buf[5] as u64) << 56u64) | ((buf[6] as u64) << 48u64) | ((
        buf[7] as u64) << 40u64) | ((buf[8] as u64) << 32u64) | ((buf[9] as u64) << 24u64) | ((
        buf[10] as u64) << 16u64) | ((buf[11] as u64) << 8u64) | (buf[12] as u64);
        let data = bytes_copy_from_slice(slice_subrange(buf, FIXED_HEADER_LEN, total_len));
        Ok(Segment { segment_type, seq, data })
    }
}

} // verus!
