//! A binary framing codec for transport segments.
//!
//! A segment (a type tag, a sequence number and a payload) is written as a
//! self-delimited buffer: a 13-byte big-endian header holding the total
//! length, the tag and the sequence number, followed by the payload bytes.
//! Decoding validates every header field of an untrusted buffer before the
//! payload is copied out.

pub mod buffers;
pub mod segment;
