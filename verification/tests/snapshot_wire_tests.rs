use lumina::delta::FieldChange;
use lumina::replication::{Payload, Snapshot};
use lumina::snapshot_wire::{decode_snapshot, encode_snapshot};

fn word(v: u64) -> Vec<u8> {
    v.to_le_bytes().to_vec()
}

#[test]
fn full_snapshot_has_a_fixed_layout() {
    let s = Snapshot { entity: 7, tick: 0x0102, payload: Payload::Full(vec![0, -1]) };
    let mut expected = word(7);
    expected.extend(word(0x0102));
    expected.push(0);
    expected.extend(word(1 << 63));
    expected.extend(word((1 << 63) - 1));
    assert_eq!(encode_snapshot(&s), expected);
}

#[test]
fn delta_snapshot_has_a_fixed_layout() {
    let s = Snapshot {
        entity: 7,
        tick: 12,
        payload: Payload::Delta {
            baseline_tick: 10,
            changes: vec![FieldChange { field: 3, value: 1 }],
        },
    };
    let mut expected = word(7);
    expected.extend(word(12));
    expected.push(1);
    expected.extend(word(10));
    expected.extend(word(3));
    expected.extend(word((1 << 63) + 1));
    assert_eq!(encode_snapshot(&s), expected);
}

#[test]
fn full_snapshot_round_trips() {
    let values = vec![i64::MIN, -1, 0, 1, i64::MAX];
    let s = Snapshot { entity: u64::MAX, tick: 99, payload: Payload::Full(values.clone()) };
    let back = decode_snapshot(&encode_snapshot(&s)).unwrap();
    assert_eq!((back.entity, back.tick), (u64::MAX, 99));
    match back.payload {
        Payload::Full(v) => assert_eq!(v, values),
        Payload::Delta { .. } => panic!("a full snapshot came back as a delta"),
    }
    let empty = Snapshot { entity: 1, tick: 2, payload: Payload::Full(Vec::new()) };
    assert_eq!(encode_snapshot(&empty).len(), 17);
    assert!(matches!(decode_snapshot(&encode_snapshot(&empty)).unwrap().payload, Payload::Full(v) if v.is_empty()));
}

#[test]
fn delta_snapshot_round_trips() {
    let changes = vec![
        FieldChange { field: 0, value: i64::MIN },
        FieldChange { field: usize::MAX, value: i64::MAX },
        FieldChange { field: 5, value: -5 },
    ];
    let s = Snapshot {
        entity: 3,
        tick: 200,
        payload: Payload::Delta { baseline_tick: 190, changes: changes.clone() },
    };
    let back = decode_snapshot(&encode_snapshot(&s)).unwrap();
    assert_eq!((back.entity, back.tick), (3, 200));
    match back.payload {
        Payload::Delta { baseline_tick, changes: c } => {
            assert_eq!(baseline_tick, 190);
            assert_eq!(c, changes);
        },
        Payload::Full(_) => panic!("a delta came back as a full snapshot"),
    }
}

#[test]
fn misshapen_snapshot_bytes_are_refused() {
    let full = encode_snapshot(&Snapshot { entity: 1, tick: 2, payload: Payload::Full(vec![3]) });
    assert!(decode_snapshot(&full).is_some());
    assert!(decode_snapshot(&full[..16].to_vec()).is_none());
    assert!(decode_snapshot(&full[..24].to_vec()).is_none());
    let mut flag = full.clone();
    flag[16] = 2;
    assert!(decode_snapshot(&flag).is_none());
    let mut as_delta = full.clone();
    as_delta[16] = 1;
    assert!(decode_snapshot(&as_delta).is_some());
    as_delta.push(0);
    assert!(decode_snapshot(&as_delta).is_none());
    assert!(decode_snapshot(&Vec::new()).is_none());
}
