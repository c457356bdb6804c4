//! The packet as it travels: a fixed header in little-endian byte order,
//! followed by the payload.

use vstd::prelude::*;
use vstd::bytes::{
    lemma_auto_spec_u32_to_from_le_bytes, lemma_auto_spec_u64_to_from_le_bytes,
    spec_u32_from_le_bytes, spec_u32_to_le_bytes, spec_u64_from_le_bytes, spec_u64_to_le_bytes,
    u32_from_le_bytes, u32_to_le_bytes, u64_from_le_bytes, u64_to_le_bytes,
};
use vstd::slice::slice_subrange;

verus! {

/// Channel identifier of the unreliable-unordered channel.
pub const UNRELIABLE: u8 = 0;

/// Channel identifier of the reliable-ordered channel.
pub const RELIABLE: u8 = 1;

/// Number of bytes that a header takes.
pub const HEADER_LEN: usize = 29;

/// What precedes every payload.
#[derive(Clone, Copy, Debug, PartialEq, Eq, Structural)]
pub struct PacketHeader {
    pub connection: u64,
    pub channel: u8,
    pub seq: u64,
    pub tick: u64,
    pub payload_len: u32,
}

/// The bytes of a header: connection, channel, sequence number, tick and
/// payload length, in this order.
pub open spec fn header_bytes(h: PacketHeader) -> Seq<u8> {
    spec_u64_to_le_bytes(h.connection) + seq![h.channel] + spec_u64_to_le_bytes(h.seq)
        + spec_u64_to_le_bytes(h.tick) + spec_u32_to_le_bytes(h.payload_len)
}

/// The header that the first bytes of a packet spell.
pub open spec fn header_of(bytes: Seq<u8>) -> PacketHeader {
    PacketHeader {
        connection: spec_u64_from_le_bytes(bytes.subrange(0, 8)),
        channel: bytes[8],
        seq: spec_u64_from_le_bytes(bytes.subrange(9, 17)),
        tick: spec_u64_from_le_bytes(bytes.subrange(17, 25)),
        payload_len: spec_u32_from_le_bytes(bytes.subrange(25, 29)),
    }
}

/// A packet is well formed when it holds a whole header of a known channel
/// and exactly as many payload bytes as the header announces.
pub open spec fn well_formed(bytes: Seq<u8>) -> bool {
    &&& bytes.len() >= HEADER_LEN
    &&& header_of(bytes).channel <= RELIABLE
    &&& bytes.len() - HEADER_LEN == header_of(bytes).payload_len
}

/// A header for this payload can be written when the channel is known and
/// the length of the payload fits the header's field.
pub open spec fn encodable(channel: u8, payload: Seq<u8>) -> bool {
    channel <= RELIABLE && payload.len() <= u32::MAX
}

/// Writing a header and reading it back gives the header, and the payload follows it.
pub proof fn lemma_header_round_trip(h: PacketHeader, payload: Seq<u8>)
    ensures
        header_bytes(h).len() == HEADER_LEN,
        header_of(header_bytes(h) + payload) == h,
        (header_bytes(h) + payload).skip(HEADER_LEN as int) == payload,
        h.channel <= RELIABLE && payload.len() == h.payload_len ==> well_formed(
            header_bytes(h) + payload,
        ),
{
    lemma_auto_spec_u64_to_from_le_bytes();
    lemma_auto_spec_u32_to_from_le_bytes();
    let bytes = header_bytes(h) + payload;
    assert(bytes.subrange(0, 8) =~= spec_u64_to_le_bytes(h.connection));
    assert(bytes.subrange(9, 17) =~= spec_u64_to_le_bytes(h.seq));
    assert(bytes.subrange(17, 25) =~= spec_u64_to_le_bytes(h.tick));
    assert(bytes.subrange(25, 29) =~= spec_u32_to_le_bytes(h.payload_len));
    assert(bytes[8] == h.channel);
    assert(bytes.skip(HEADER_LEN as int) =~= payload);
}

/// Writes a packet: the header for the payload, then the payload.
pub fn encode_packet(connection: u64, channel: u8, seq: u64, tick: u64, payload: &Vec<u8>) -> (r:
    Option<Vec<u8>>)
    ensures
        r is Some <==> encodable(channel, payload@),
        r is Some ==> r->0@ == header_bytes(
            PacketHeader { connection, channel, seq, tick, payload_len: payload@.len() as u32 },
        ) + payload@,
        r is Some ==> well_formed(r->0@),
{
    if channel > RELIABLE || payload.len() > u32::MAX as usize {
        return None;
    }
    let payload_len: u32 = payload.len() as u32;
    let mut out: Vec<u8> = u64_to_le_bytes(connection);
    out.push(channel);
    let mut part: Vec<u8> = u64_to_le_bytes(seq);
    out.append(&mut part);
    let mut part: Vec<u8> = u64_to_le_bytes(tick);
    out.append(&mut part);
    let mut part: Vec<u8> = u32_to_le_bytes(payload_len);
    out.append(&mut part);
    let ghost head = out@;
    let ghost h = PacketHeader { connection, channel, seq, tick, payload_len };
    proof {
        assert(head =~= header_bytes(h));
    }
    let mut i: usize = 0;
    while i < payload.len()
        invariant
            i <= payload.len(),
            out@ == head + payload@.take(i as int),
        decreases payload.len() - i,
    {
        out.push(payload[i]);
        proof {
            assert(head + payload@.take(i + 1) =~= (head + payload@.take(i as int)).push(
                payload@[i as int],
            ));
        }
        i += 1;
    }
    proof {
        assert(payload@.take(payload.len() as int) =~= payload@);
        lemma_header_round_trip(h, payload@);
    }
    Some(out)
}

/// Reads a packet: the header and the payload, or nothing where the bytes
/// are not a well-formed packet.
pub fn decode_packet(bytes: &Vec<u8>) -> (r: Option<(PacketHeader, Vec<u8>)>)
    ensures
        r is Some <==> well_formed(bytes@),
        r is Some ==> r.unwrap().0 == header_of(bytes@) && r.unwrap().1@ == bytes@.skip(
            HEADER_LEN as int,
        ),
{
    if bytes.len() < HEADER_LEN {
        return None;
    }
    let all: &[u8] = bytes.as_slice();
    let connection: u64 = u64_from_le_bytes(slice_subrange(all, 0, 8));
    let channel: u8 = bytes[8];
    let seq: u64 = u64_from_le_bytes(slice_subrange(all, 9, 17));
    let tick: u64 = u64_from_le_bytes(slice_subrange(all, 17, 25));
    let payload_len: u32 = u32_from_le_bytes(slice_subrange(all, 25, 29));
    if channel > RELIABLE || bytes.len() - HEADER_LEN != payload_len as usize {
        return None;
    }
    let mut payload: Vec<u8> = Vec::new();
    let mut i: usize = HEADER_LEN;
    while i < bytes.len()
        invariant
            HEADER_LEN <= i <= bytes.len(),
            payload@ == bytes@.subrange(HEADER_LEN as int, i as int),
        decreases bytes.len() - i,
    {
        payload.push(bytes[i]);
        proof {
            assert(bytes@.subrange(HEADER_LEN as int, i + 1) =~= bytes@.subrange(
                HEADER_LEN as int,
                i as int,
            ).push(bytes@[i as int]));
        }
        i += 1;
    }
    proof {
        assert(bytes@.subrange(HEADER_LEN as int, bytes.len() as int) =~= bytes@.skip(
            HEADER_LEN as int,
        ));
    }
    Some((PacketHeader { connection, channel, seq, tick, payload_len }, payload))
}

} // verus!
