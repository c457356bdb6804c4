//! The payload of a snapshot: entity, tick, a flag that tells a full snapshot
//! from a delta, and then the fields, each word in eight bytes, little end
//! first.

use vstd::prelude::*;
use vstd::bytes::{
    lemma_auto_spec_u64_to_from_le_bytes, spec_u64_from_le_bytes, spec_u64_to_le_bytes,
    u64_from_le_bytes, u64_to_le_bytes,
};
use vstd::slice::slice_subrange;
use crate::delta::FieldChange;
use crate::input::{bias, biased, unbias, unbiased};
use crate::replication::{Payload, Snapshot};

verus! {

/// Flag of a full snapshot.
pub const FULL: u8 = 0;

/// Flag of a delta snapshot.
pub const DELTA: u8 = 1;

/// The word that starts at byte `at`.
pub open spec fn word_at(bytes: Seq<u8>, at: int) -> u64 {
    spec_u64_from_le_bytes(bytes.subrange(at, at + 8))
}

/// The bytes of a full snapshot's fields, in field order.
pub open spec fn values_bytes(values: Seq<i64>) -> Seq<u8>
    decreases values.len(),
{
    if values.len() == 0 {
        Seq::empty()
    } else {
        values_bytes(values.drop_last()) + spec_u64_to_le_bytes(biased(values.last()))
    }
}

/// The bytes of a delta's changes: for each, the field and then the value.
pub open spec fn changes_bytes(changes: Seq<FieldChange>) -> Seq<u8>
    decreases changes.len(),
{
    if changes.len() == 0 {
        Seq::empty()
    } else {
        changes_bytes(changes.drop_last()) + spec_u64_to_le_bytes(changes.last().field as u64)
            + spec_u64_to_le_bytes(biased(changes.last().value))
    }
}

/// The bytes that precede the fields.
pub open spec fn head_bytes(s: Snapshot) -> Seq<u8> {
    spec_u64_to_le_bytes(s.entity) + spec_u64_to_le_bytes(s.tick) + match s.payload {
        Payload::Full(_) => seq![FULL],
        Payload::Delta { baseline_tick, changes } => seq![DELTA] + spec_u64_to_le_bytes(
            baseline_tick,
        ),
    }
}

/// The payload of a snapshot.
pub open spec fn snapshot_bytes(s: Snapshot) -> Seq<u8> {
    head_bytes(s) + match s.payload {
        Payload::Full(values) => values_bytes(values@),
        Payload::Delta { baseline_tick, changes } => changes_bytes(changes@),
    }
}

/// The field identifier of the `i`-th change of a delta.
pub open spec fn field_word(bytes: Seq<u8>, i: int) -> u64 {
    word_at(bytes, 25 + 16 * i)
}

/// The `n` values that start at byte `start`.
pub open spec fn values_in(bytes: Seq<u8>, start: int, n: int) -> Seq<i64> {
    Seq::new(n as nat, |i: int| unbiased(word_at(bytes, start + 8 * i)))
}

/// The `n` changes that start at byte `start`.
pub open spec fn changes_in(bytes: Seq<u8>, start: int, n: int) -> Seq<FieldChange> {
    Seq::new(
        n as nat,
        |i: int|
            FieldChange {
                field: word_at(bytes, start + 16 * i) as usize,
                value: unbiased(word_at(bytes, start + 16 * i + 8)),
            },
    )
}

/// The bytes have the length and the flag of a snapshot, and every field
/// identifier of a delta is one that this machine can index.
pub open spec fn snapshot_shaped(bytes: Seq<u8>) -> bool {
    &&& bytes.len() >= 17
    &&& if bytes[16] == FULL {
        (bytes.len() - 17) % 8 == 0
    } else {
        &&& bytes[16] == DELTA
        &&& bytes.len() >= 25
        &&& (bytes.len() - 25) % 16 == 0
        &&& forall|i: int|
            0 <= i < (bytes.len() - 25) / 16 ==> #[trigger] field_word(bytes, i) <= usize::MAX
    }
}

/// The snapshot that well-shaped bytes spell is read off word by word.
pub open spec fn spells(bytes: Seq<u8>, s: Snapshot) -> bool {
    &&& s.entity == word_at(bytes, 0)
    &&& s.tick == word_at(bytes, 8)
    &&& match s.payload {
        Payload::Full(values) => bytes[16] == FULL && values@ == values_in(
            bytes,
            17,
            (bytes.len() - 17) / 8,
        ),
        Payload::Delta { baseline_tick, changes } => bytes[16] == DELTA && baseline_tick
            == word_at(bytes, 17) && changes@ == changes_in(bytes, 25, (bytes.len() - 25) / 16),
    }
}

proof fn lemma_values_words(values: Seq<i64>, i: int)
    ensures
        values_bytes(values).len() == 8 * values.len(),
        0 <= i < values.len() ==> values_bytes(values).subrange(8 * i, 8 * i + 8)
            == spec_u64_to_le_bytes(biased(values[i])),
    decreases values.len(),
{
    lemma_auto_spec_u64_to_from_le_bytes();
    if values.len() > 0 {
        lemma_values_words(values.drop_last(), i);
        let front = values_bytes(values.drop_last());
        let word = spec_u64_to_le_bytes(biased(values.last()));
        if 0 <= i < values.len() {
            if i == values.len() - 1 {
                assert((front + word).subrange(8 * i, 8 * i + 8) =~= word);
            } else {
                assert((front + word).subrange(8 * i, 8 * i + 8) =~= front.subrange(
                    8 * i,
                    8 * i + 8,
                ));
            }
        }
    }
}

proof fn lemma_changes_words(changes: Seq<FieldChange>, i: int)
    ensures
        changes_bytes(changes).len() == 16 * changes.len(),
        0 <= i < changes.len() ==> changes_bytes(changes).subrange(16 * i, 16 * i + 8)
            == spec_u64_to_le_bytes(changes[i].field as u64) && changes_bytes(changes).subrange(
            16 * i + 8,
            16 * i + 16,
        ) == spec_u64_to_le_bytes(biased(changes[i].value)),
    decreases changes.len(),
{
    lemma_auto_spec_u64_to_from_le_bytes();
    if changes.len() > 0 {
        lemma_changes_words(changes.drop_last(), i);
        let front = changes_bytes(changes.drop_last());
        let field = spec_u64_to_le_bytes(changes.last().field as u64);
        let value = spec_u64_to_le_bytes(biased(changes.last().value));
        let all = front + field + value;
        if 0 <= i < changes.len() {
            if i == changes.len() - 1 {
                assert(all.subrange(16 * i, 16 * i + 8) =~= field);
                assert(all.subrange(16 * i + 8, 16 * i + 16) =~= value);
            } else {
                assert(all.subrange(16 * i, 16 * i + 8) =~= front.subrange(16 * i, 16 * i + 8));
                assert(all.subrange(16 * i + 8, 16 * i + 16) =~= front.subrange(
                    16 * i + 8,
                    16 * i + 16,
                ));
            }
        }
    }
}

/// A snapshot that is written and read back is the same snapshot: its bytes
/// are well shaped and spell it.
pub proof fn lemma_snapshot_round_trip(s: Snapshot)
    ensures
        snapshot_shaped(snapshot_bytes(s)),
        spells(snapshot_bytes(s), s),
{
    lemma_auto_spec_u64_to_from_le_bytes();
    let bytes = snapshot_bytes(s);
    let head = head_bytes(s);
    assert(bytes.subrange(0, 8) =~= spec_u64_to_le_bytes(s.entity));
    assert(bytes.subrange(8, 16) =~= spec_u64_to_le_bytes(s.tick));
    match s.payload {
        Payload::Full(values) => {
            let body = values_bytes(values@);
            lemma_values_words(values@, 0);
            assert(head.len() == 17);
            assert(bytes[16] == FULL);
            let n = (bytes.len() - 17) / 8;
            assert(n == values@.len());
            assert forall|i: int| 0 <= i < n implies values_in(bytes, 17, n)[i] == values@[i] by {
                lemma_values_words(values@, i);
                assert(bytes.subrange(17 + 8 * i, 17 + 8 * i + 8) =~= body.subrange(
                    8 * i,
                    8 * i + 8,
                ));
            }
            assert(values_in(bytes, 17, n) =~= values@);
        },
        Payload::Delta { baseline_tick, changes } => {
            let body = changes_bytes(changes@);
            lemma_changes_words(changes@, 0);
            assert(head.len() == 25);
            assert(bytes[16] == DELTA);
            assert(bytes.subrange(17, 25) =~= spec_u64_to_le_bytes(baseline_tick));
            let n = (bytes.len() - 25) / 16;
            assert(n == changes@.len());
            assert forall|i: int| 0 <= i < n implies #[trigger] changes_in(bytes, 25, n)[i]
                == changes@[i] && field_word(bytes, i) <= usize::MAX by {
                lemma_changes_words(changes@, i);
                assert(bytes.subrange(25 + 16 * i, 25 + 16 * i + 8) =~= body.subrange(
                    16 * i,
                    16 * i + 8,
                ));
                assert(bytes.subrange(25 + 16 * i + 8, 25 + 16 * i + 8 + 8) =~= body.subrange(
                    16 * i + 8,
                    16 * i + 16,
                ));
            }
            assert(changes_in(bytes, 25, n) =~= changes@);
            assert forall|i: int| 0 <= i < n implies #[trigger] field_word(bytes, i)
                <= usize::MAX by {
                assert(changes_in(bytes, 25, n)[i] == changes@[i]);
            }
        },
    }
}

/// Writes the payload of a snapshot.
pub fn encode_snapshot(s: &Snapshot) -> (bytes: Vec<u8>)
    ensures
        bytes@ == snapshot_bytes(*s),
        snapshot_shaped(bytes@),
        spells(bytes@, *s),
{
    let mut out: Vec<u8> = u64_to_le_bytes(s.entity);
    let mut part: Vec<u8> = u64_to_le_bytes(s.tick);
    out.append(&mut part);
    match &s.payload {
        Payload::Full(values) => {
            out.push(FULL);
            let ghost head = out@;
            assert(head =~= head_bytes(*s));
            let mut i: usize = 0;
            while i < values.len()
                invariant
                    i <= values.len(),
                    out@ == head + values_bytes(values@.take(i as int)),
                decreases values.len() - i,
            {
                let mut word: Vec<u8> = u64_to_le_bytes(bias(values[i]));
                proof {
                    assert(values@.take(i + 1).drop_last() =~= values@.take(i as int));
                    assert(head + values_bytes(values@.take(i + 1)) =~= head + values_bytes(
                        values@.take(i as int),
                    ) + word@);
                }
                out.append(&mut word);
                i += 1;
            }
            proof {
                assert(values@.take(values.len() as int) =~= values@);
            }
        },
        Payload::Delta { baseline_tick, changes } => {
            out.push(DELTA);
            let mut part: Vec<u8> = u64_to_le_bytes(*baseline_tick);
            out.append(&mut part);
            let ghost head = out@;
            assert(head =~= head_bytes(*s));
            let mut i: usize = 0;
            while i < changes.len()
                invariant
                    i <= changes.len(),
                    out@ == head + changes_bytes(changes@.take(i as int)),
                decreases changes.len() - i,
            {
                let c: FieldChange = changes[i];
                let mut field: Vec<u8> = u64_to_le_bytes(c.field as u64);
                let mut value: Vec<u8> = u64_to_le_bytes(bias(c.value));
                proof {
                    assert(changes@.take(i + 1).drop_last() =~= changes@.take(i as int));
                    assert(head + changes_bytes(changes@.take(i + 1)) =~= head + changes_bytes(
                        changes@.take(i as int),
                    ) + field@ + value@);
                }
                out.append(&mut field);
                out.append(&mut value);
                i += 1;
            }
            proof {
                assert(changes@.take(changes.len() as int) =~= changes@);
            }
        },
    }
    proof {
        lemma_snapshot_round_trip(*s);
    }
    out
}

/// Reads the payload of a snapshot, or nothing where the bytes have not the
/// shape of one.
pub fn decode_snapshot(bytes: &Vec<u8>) -> (r: Option<Snapshot>)
    ensures
        r is Some ==> snapshot_shaped(bytes@) && spells(bytes@, r->0),
        snapshot_shaped(bytes@) ==> r is Some,
{
    if bytes.len() < 17 {
        return None;
    }
    let all: &[u8] = bytes.as_slice();
    let entity: u64 = u64_from_le_bytes(slice_subrange(all, 0, 8));
    let tick: u64 = u64_from_le_bytes(slice_subrange(all, 8, 16));
    let flag: u8 = bytes[16];
    if flag == FULL {
        if (bytes.len() - 17) % 8 != 0 {
            return None;
        }
        let n: usize = (bytes.len() - 17) / 8;
        let mut values: Vec<i64> = Vec::new();
        let mut i: usize = 0;
        while i < n
            invariant
                i <= n,
                n == (bytes.len() - 17) / 8,
                (bytes.len() - 17) % 8 == 0,
                bytes.len() >= 17,
                all@ == bytes@,
                values@ == values_in(bytes@, 17, i as int),
            decreases n - i,
        {
            let at: usize = 17 + 8 * i;
            let v: i64 = unbias(u64_from_le_bytes(slice_subrange(all, at, at + 8)));
            values.push(v);
            proof {
                assert(values@ =~= values_in(bytes@, 17, i + 1));
            }
            i += 1;
        }
        Some(Snapshot { entity, tick, payload: Payload::Full(values) })
    } else if flag == DELTA {
        if bytes.len() < 25 || (bytes.len() - 25) % 16 != 0 {
            return None;
        }
        let baseline_tick: u64 = u64_from_le_bytes(slice_subrange(all, 17, 25));
        let n: usize = (bytes.len() - 25) / 16;
        let mut changes: Vec<FieldChange> = Vec::new();
        let mut i: usize = 0;
        while i < n
            invariant
                i <= n,
                n == (bytes.len() - 25) / 16,
                (bytes.len() - 25) % 16 == 0,
                bytes.len() >= 25,
                bytes@[16] == DELTA,
                all@ == bytes@,
                changes@ == changes_in(bytes@, 25, i as int),
                forall|j: int| 0 <= j < i ==> #[trigger] field_word(bytes@, j) <= usize::MAX,
            decreases n - i,
        {
            let at: usize = 25 + 16 * i;
            let field: u64 = u64_from_le_bytes(slice_subrange(all, at, at + 8));
            let value: i64 = unbias(u64_from_le_bytes(slice_subrange(all, at + 8, at + 16)));
            if field > usize::MAX as u64 {
                proof {
                    assert(field_word(bytes@, i as int) > usize::MAX);
                }
                return None;
            }
            changes.push(FieldChange { field: field as usize, value });
            proof {
                assert(changes@ =~= changes_in(bytes@, 25, i + 1));
            }
            i += 1;
        }
        Some(Snapshot { entity, tick, payload: Payload::Delta { baseline_tick, changes } })
    } else {
        None
    }
}

} // verus!
