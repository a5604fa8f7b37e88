//! The wire format of rework queue messages.
//!
//! A message is nine bytes: a format version byte (1), then `user_id` and
//! `rework_id` as 32-bit two's-complement integers, little-endian. Any other
//! payload is rejected on receipt.
use crate::models::QueueRequest;
use vstd::prelude::*;

verus! {

pub const FORMAT_VERSION: u8 = 1;

pub const MESSAGE_LEN: usize = 9;

/// The two's-complement bit pattern of an `i32`.
pub open spec fn bits_of(x: i32) -> u32 {
    if x >= 0 {
        x as u32
    } else {
        (x + 4294967296) as u32
    }
}

/// The `i32` whose two's-complement bit pattern is `u`.
pub open spec fn int_of_bits(u: u32) -> i32 {
    if u < 2147483648 {
        u as i32
    } else {
        (u - 4294967296) as i32
    }
}

pub open spec fn le_bytes(u: u32) -> Seq<u8> {
    seq![(u & 0xff) as u8, ((u >> 8) & 0xff) as u8, ((u >> 16) & 0xff) as u8, (u >> 24) as u8]
}

pub open spec fn le_value(b0: u8, b1: u8, b2: u8, b3: u8) -> u32 {
    (b0 as u32) | ((b1 as u32) << 8) | ((b2 as u32) << 16) | ((b3 as u32) << 24)
}

/// The bytes of a message.
pub open spec fn encoded(r: QueueRequest) -> Seq<u8> {
    seq![FORMAT_VERSION] + le_bytes(bits_of(r.user_id)) + le_bytes(bits_of(r.rework_id))
}

/// The request a payload carries, if it is a well-formed message.
pub open spec fn decoded(s: Seq<u8>) -> Option<QueueRequest> {
    if s.len() == MESSAGE_LEN && s[0] == FORMAT_VERSION {
        Some(
            QueueRequest {
                user_id: int_of_bits(le_value(s[1], s[2], s[3], s[4])),
                rework_id: int_of_bits(le_value(s[5], s[6], s[7], s[8])),
            },
        )
    } else {
        None
    }
}

fn to_bits(x: i32) -> (r: u32)
    ensures
        r == bits_of(x),
{
    if x >= 0 {
        x as u32
    } else {
        (x as i64 + 4294967296) as u32
    }
}

fn from_bits(u: u32) -> (r: i32)
    ensures
        r == int_of_bits(u),
{
    if u < 2147483648 {
        u as i32
    } else {
        (u as i64 - 4294967296) as i32
    }
}

fn push_le(out: &mut Vec<u8>, u: u32)
    ensures
        final(out)@ == old(out)@ + le_bytes(u),
{
    out.push((u & 0xff) as u8);
    out.push(((u >> 8) & 0xff) as u8);
    out.push(((u >> 16) & 0xff) as u8);
    out.push((u >> 24) as u8);
    proof {
        assert(final(out)@ =~= old(out)@ + le_bytes(u));
    }
}

/// Encodes a queue request as a message.
pub fn encode_queue_request(r: &QueueRequest) -> (bytes: Vec<u8>)
    ensures
        bytes@ == encoded(*r),
{
    let mut out: Vec<u8> = Vec::new();
    out.push(FORMAT_VERSION);
    push_le(&mut out, to_bits(r.user_id));
    push_le(&mut out, to_bits(r.rework_id));
    proof {
        assert(out@ =~= encoded(*r));
    }
    out
}

/// Decodes a message; `None` for a payload that is not a well-formed message.
pub fn decode_queue_request(bytes: &[u8]) -> (r: Option<QueueRequest>)
    ensures
        r == decoded(bytes@),
{
    if bytes.len() != MESSAGE_LEN || bytes[0] != FORMAT_VERSION {
        return None;
    }
    let user = (bytes[1] as u32) | ((bytes[2] as u32) << 8) | ((bytes[3] as u32) << 16) | ((
    bytes[4] as u32) << 24);
    let rework = (bytes[5] as u32) | ((bytes[6] as u32) << 8) | ((bytes[7] as u32) << 16) | ((
    bytes[8] as u32) << 24);
    Some(QueueRequest { user_id: from_bits(user), rework_id: from_bits(rework) })
}

proof fn lemma_le_round_trip(u: u32)
    ensures
        le_value(le_bytes(u)[0], le_bytes(u)[1], le_bytes(u)[2], le_bytes(u)[3]) == u,
{
    let b0 = (u & 0xff) as u8;
    let b1 = ((u >> 8) & 0xff) as u8;
    let b2 = ((u >> 16) & 0xff) as u8;
    let b3 = (u >> 24) as u8;
    assert((b0 as u32) | ((b1 as u32) << 8) | ((b2 as u32) << 16) | ((b3 as u32) << 24) == u)
        by (bit_vector)
        requires
            b0 == (u & 0xff) as u8,
            b1 == ((u >> 8) & 0xff) as u8,
            b2 == ((u >> 16) & 0xff) as u8,
            b3 == (u >> 24) as u8,
    ;
}

proof fn lemma_bytes_round_trip(b0: u8, b1: u8, b2: u8, b3: u8)
    ensures
        le_bytes(le_value(b0, b1, b2, b3)) == seq![b0, b1, b2, b3],
{
    let u = le_value(b0, b1, b2, b3);
    assert((u & 0xff) as u8 == b0 && ((u >> 8) & 0xff) as u8 == b1 && ((u >> 16) & 0xff) as u8
        == b2 && (u >> 24) as u8 == b3) by (bit_vector)
        requires
            u == (b0 as u32) | ((b1 as u32) << 8) | ((b2 as u32) << 16) | ((b3 as u32) << 24),
    ;
    assert(le_bytes(u) =~= seq![b0, b1, b2, b3]);
}

/// Every request survives encoding and decoding unchanged.
pub proof fn lemma_decode_encode(r: QueueRequest)
    ensures
        decoded(encoded(r)) == Some(r),
{
    let s = encoded(r);
    lemma_le_round_trip(bits_of(r.user_id));
    lemma_le_round_trip(bits_of(r.rework_id));
    assert(s[1] == le_bytes(bits_of(r.user_id))[0]);
    assert(s[2] == le_bytes(bits_of(r.user_id))[1]);
    assert(s[3] == le_bytes(bits_of(r.user_id))[2]);
    assert(s[4] == le_bytes(bits_of(r.user_id))[3]);
    assert(s[5] == le_bytes(bits_of(r.rework_id))[0]);
    assert(s[6] == le_bytes(bits_of(r.rework_id))[1]);
    assert(s[7] == le_bytes(bits_of(r.rework_id))[2]);
    assert(s[8] == le_bytes(bits_of(r.rework_id))[3]);
}

/// A payload is accepted only when it is exactly the encoding of the request
/// it decodes to.
pub proof fn lemma_encode_decode(s: Seq<u8>)
    ensures
        decoded(s) matches Some(r) ==> encoded(r) == s,
{
    if let Some(r) = decoded(s) {
        let u = le_value(s[1], s[2], s[3], s[4]);
        let w = le_value(s[5], s[6], s[7], s[8]);
        lemma_bytes_round_trip(s[1], s[2], s[3], s[4]);
        lemma_bytes_round_trip(s[5], s[6], s[7], s[8]);
        assert(bits_of(int_of_bits(u)) == u);
        assert(bits_of(int_of_bits(w)) == w);
        assert(encoded(r) =~= s);
    }
}

} // verus!
