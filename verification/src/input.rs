//! Input replication: each captured input gets the next sequence number of
//! its player, and travels as a payload of fixed length.

use vstd::prelude::*;
use vstd::bytes::{
    lemma_auto_spec_u64_to_from_le_bytes, spec_u64_from_le_bytes, spec_u64_to_le_bytes,
    u64_from_le_bytes, u64_to_le_bytes,
};
use vstd::slice::slice_subrange;
use crate::prediction::InputCommand;

verus! {

/// Number of bytes of an input payload.
pub const INPUT_LEN: usize = 32;

/// Gives the inputs of one player their sequence numbers.
pub struct InputRecorder {
    pub next_seq: u64,
}

/// A displacement as an unsigned number: the smallest becomes 0, zero becomes 2^63.
pub open spec fn biased(v: i64) -> u64 {
    (v + 0x8000_0000_0000_0000) as u64
}

/// The displacement that an unsigned number stands for.
pub open spec fn unbiased(u: u64) -> i64 {
    (u - 0x8000_0000_0000_0000) as i64
}

/// The payload of an input: tick, sequence number and the two displacements,
/// each in eight bytes, little end first.
pub open spec fn input_bytes(c: InputCommand) -> Seq<u8> {
    spec_u64_to_le_bytes(c.tick) + spec_u64_to_le_bytes(c.seq) + spec_u64_to_le_bytes(
        biased(c.dx),
    ) + spec_u64_to_le_bytes(biased(c.dy))
}

/// The input that a payload of the right length spells.
pub open spec fn input_of(bytes: Seq<u8>) -> InputCommand {
    InputCommand {
        tick: spec_u64_from_le_bytes(bytes.subrange(0, 8)),
        seq: spec_u64_from_le_bytes(bytes.subrange(8, 16)),
        dx: unbiased(spec_u64_from_le_bytes(bytes.subrange(16, 24))),
        dy: unbiased(spec_u64_from_le_bytes(bytes.subrange(24, 32))),
    }
}

/// An input that is written and read back is the same input.
pub proof fn lemma_input_round_trip(c: InputCommand)
    ensures
        input_bytes(c).len() == INPUT_LEN,
        input_of(input_bytes(c)) == c,
{
    lemma_auto_spec_u64_to_from_le_bytes();
    let bytes = input_bytes(c);
    assert(bytes.subrange(0, 8) =~= spec_u64_to_le_bytes(c.tick));
    assert(bytes.subrange(8, 16) =~= spec_u64_to_le_bytes(c.seq));
    assert(bytes.subrange(16, 24) =~= spec_u64_to_le_bytes(biased(c.dx)));
    assert(bytes.subrange(24, 32) =~= spec_u64_to_le_bytes(biased(c.dy)));
}

/// A displacement as the unsigned number that stands for it on the wire.
pub fn bias(v: i64) -> (u: u64)
    ensures
        u == biased(v),
{
    (v as i128 + 0x8000_0000_0000_0000i128) as u64
}

/// The displacement that an unsigned number from the wire stands for.
pub fn unbias(u: u64) -> (v: i64)
    ensures
        v == unbiased(u),
{
    (u as i128 - 0x8000_0000_0000_0000i128) as i64
}

impl InputRecorder {
    pub fn new() -> (r: Self)
        ensures
            r.next_seq == 0,
    {
        InputRecorder { next_seq: 0 }
    }

    /// Stamps the intent captured for `tick` with the next sequence number.
    /// Once every sequence number is used nothing more is captured.
    pub fn capture(&mut self, tick: u64, dx: i64, dy: i64) -> (c: Option<InputCommand>)
        ensures
            c is Some <==> old(self).next_seq < u64::MAX,
            c is Some ==> c->0 == (InputCommand { tick, seq: old(self).next_seq, dx, dy })
                && final(self).next_seq == old(self).next_seq + 1,
            c is None ==> final(self).next_seq == old(self).next_seq,
    {
        if self.next_seq == u64::MAX {
            return None;
        }
        let seq: u64 = self.next_seq;
        self.next_seq = seq + 1;
        Some(InputCommand { tick, seq, dx, dy })
    }
}

/// Writes the payload of an input.
pub fn encode_input(c: &InputCommand) -> (bytes: Vec<u8>)
    ensures
        bytes@ == input_bytes(*c),
        bytes@.len() == INPUT_LEN,
        input_of(bytes@) == *c,
{
    let mut out: Vec<u8> = u64_to_le_bytes(c.tick);
    let mut part: Vec<u8> = u64_to_le_bytes(c.seq);
    out.append(&mut part);
    let mut part: Vec<u8> = u64_to_le_bytes(bias(c.dx));
    out.append(&mut part);
    let mut part: Vec<u8> = u64_to_le_bytes(bias(c.dy));
    out.append(&mut part);
    proof {
        lemma_input_round_trip(*c);
        assert(out@ =~= input_bytes(*c));
    }
    out
}

/// Reads the payload of an input; a payload of another length is none.
pub fn decode_input(bytes: &Vec<u8>) -> (r: Option<InputCommand>)
    ensures
        r is Some <==> bytes@.len() == INPUT_LEN,
        r is Some ==> r->0 == input_of(bytes@),
{
    if bytes.len() != INPUT_LEN {
        return None;
    }
    let all: &[u8] = bytes.as_slice();
    let tick: u64 = u64_from_le_bytes(slice_subrange(all, 0, 8));
    let seq: u64 = u64_from_le_bytes(slice_subrange(all, 8, 16));
    let dx: i64 = unbias(u64_from_le_bytes(slice_subrange(all, 16, 24)));
    let dy: i64 = unbias(u64_from_le_bytes(slice_subrange(all, 24, 32)));
    Some(InputCommand { tick, seq, dx, dy })
}

} // verus!
