use lumina::input::{decode_input, encode_input, InputRecorder, INPUT_LEN};
use lumina::prediction::InputCommand;

#[test]
fn inputs_are_numbered_in_order() {
    let mut r = InputRecorder::new();
    assert_eq!(r.capture(100, 1, 0), Some(InputCommand { tick: 100, seq: 0, dx: 1, dy: 0 }));
    assert_eq!(r.capture(101, 0, -1), Some(InputCommand { tick: 101, seq: 1, dx: 0, dy: -1 }));
    assert_eq!(r.next_seq, 2);
    r.next_seq = u64::MAX;
    assert_eq!(r.capture(102, 0, 0), None);
    assert_eq!(r.next_seq, u64::MAX);
}

#[test]
fn input_payload_has_a_fixed_layout() {
    let bytes = encode_input(&InputCommand { tick: 0x0102, seq: 3, dx: 0, dy: -1 });
    assert_eq!(bytes.len(), INPUT_LEN);
    let mut expected = vec![0x02, 0x01, 0, 0, 0, 0, 0, 0];
    expected.extend_from_slice(&[3, 0, 0, 0, 0, 0, 0, 0]);
    expected.extend_from_slice(&[0, 0, 0, 0, 0, 0, 0, 0x80]);
    expected.extend_from_slice(&[0xff, 0xff, 0xff, 0xff, 0xff, 0xff, 0xff, 0x7f]);
    assert_eq!(bytes, expected);
}

#[test]
fn input_payload_round_trips() {
    for c in [
        InputCommand { tick: 100, seq: 7, dx: 1, dy: 0 },
        InputCommand { tick: u64::MAX, seq: u64::MAX, dx: i64::MAX, dy: i64::MIN },
        InputCommand { tick: 0, seq: 0, dx: -5, dy: 5 },
    ] {
        assert_eq!(decode_input(&encode_input(&c)), Some(c));
    }
}

#[test]
fn input_payload_of_another_length_is_refused() {
    let bytes = encode_input(&InputCommand { tick: 1, seq: 1, dx: 1, dy: 1 });
    assert_eq!(decode_input(&bytes[..31].to_vec()), None);
    let mut long = bytes.clone();
    long.push(0);
    assert_eq!(decode_input(&long), None);
    assert_eq!(decode_input(&Vec::new()), None);
}
