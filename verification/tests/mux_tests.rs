use lumina::mux::{Connection, Delivery};
use lumina::reliable::ChannelError;
use lumina::wire::{decode_packet, encode_packet, RELIABLE, UNRELIABLE};

fn reliable(connection: u64, seq: u64, byte: u8) -> Vec<u8> {
    encode_packet(connection, RELIABLE, seq, 0, &vec![byte]).unwrap()
}

#[test]
fn each_channel_counts_its_own_sequence() {
    let mut c = Connection::new(9, 3, 10);
    let a = c.send_unreliable(100, &vec![1]).unwrap();
    let b = c.send_reliable(100, vec![2], 0).unwrap();
    let d = c.send_unreliable(101, &vec![3]).unwrap();
    let e = c.send_reliable(101, vec![4], 0).unwrap();
    let heads: Vec<(u8, u64, u64)> = [a, b, d, e]
        .iter()
        .map(|p| {
            let h = decode_packet(p).unwrap().0;
            assert_eq!(h.connection, 9);
            assert_eq!(h.payload_len, 1);
            (h.channel, h.seq, h.tick)
        })
        .collect();
    assert_eq!(heads, vec![(0, 0, 100), (1, 0, 100), (0, 1, 101), (1, 1, 101)]);
    assert_eq!(c.unreliable_seq, 2);
    assert_eq!(c.sender.next_seq, 2);
    assert_eq!(c.sender.outstanding.len(), 2);
    assert_eq!(c.sender.payloads, vec![vec![2], vec![4]]);
}

#[test]
fn reliable_packets_are_applied_in_sequence_order() {
    let mut c = Connection::new(9, 3, 10);
    for seq in [2u64, 1] {
        match c.on_packet(&reliable(9, seq, seq as u8)) {
            Delivery::Reliable(out) => assert!(out.is_empty()),
            _ => panic!("a reliable packet went elsewhere"),
        }
    }
    match c.on_packet(&reliable(9, 0, 0)) {
        Delivery::Reliable(out) => {
            let got: Vec<(u64, Vec<u8>)> = out.into_iter().map(|m| (m.seq, m.payload)).collect();
            assert_eq!(got, vec![(0, vec![0]), (1, vec![1]), (2, vec![2])]);
        },
        _ => panic!("a reliable packet went elsewhere"),
    }
    assert_eq!(c.receiver.next_expected, 3);
}

#[test]
fn unreliable_packets_pass_straight_through() {
    let mut c = Connection::new(9, 3, 10);
    let bytes = encode_packet(9, UNRELIABLE, 5, 77, &vec![1, 2, 3]).unwrap();
    match c.on_packet(&bytes) {
        Delivery::Unreliable(h, payload) => {
            assert_eq!((h.seq, h.tick, h.payload_len), (5, 77, 3));
            assert_eq!(payload, vec![1, 2, 3]);
        },
        _ => panic!("an unreliable packet went elsewhere"),
    }
    assert_eq!(c.receiver.next_expected, 0);
    assert!(c.receiver.held.is_empty());
}

#[test]
fn foreign_and_broken_packets_are_rejected() {
    let mut c = Connection::new(9, 3, 10);
    assert!(matches!(c.on_packet(&reliable(8, 0, 0)), Delivery::Rejected));
    assert!(matches!(c.on_packet(&vec![1, 2, 3]), Delivery::Rejected));
    assert_eq!(c.receiver.next_expected, 0);
    assert!(matches!(c.on_packet(&reliable(9, 0, 0)), Delivery::Reliable(_)));
}

#[test]
fn retransmission_repeats_the_first_sending() {
    let mut c = Connection::new(9, 3, 10);
    let first = c.send_reliable(100, vec![7, 7], 0).unwrap();
    assert_eq!(c.sender.on_timer(10), Ok(vec![0]));
    let again = c.retransmission(0, 103).unwrap();
    let (h1, p1) = decode_packet(&first).unwrap();
    let (h2, p2) = decode_packet(&again).unwrap();
    assert_eq!(p1, p2);
    assert_eq!((h1.seq, h1.channel, h1.connection), (h2.seq, h2.channel, h2.connection));
    assert_eq!(h2.tick, 103);
    assert!(c.sender.acknowledge(0));
    assert_eq!(c.retransmission(0, 104), None);
}

#[test]
fn failed_connection_sends_nothing() {
    let mut c = Connection::new(9, 0, 10);
    assert!(c.send_reliable(1, vec![1], 0).is_ok());
    assert_eq!(c.sender.on_timer(10), Err(ChannelError::ChannelTimeout));
    assert_eq!(c.send_reliable(2, vec![2], 11), Err(ChannelError::ChannelTimeout));
    assert_eq!(c.send_unreliable(2, &vec![2]), Err(ChannelError::ChannelTimeout));
    assert_eq!(c.unreliable_seq, 0);
    assert_eq!(c.sender.next_seq, 1);
}

#[test]
fn exhausted_channel_refuses_to_send() {
    let mut c = Connection::new(9, 3, 10);
    c.unreliable_seq = u64::MAX;
    c.sender.next_seq = u64::MAX;
    assert_eq!(c.send_unreliable(1, &Vec::new()), Err(ChannelError::SequenceExhausted));
    assert_eq!(c.send_reliable(1, Vec::new(), 0), Err(ChannelError::SequenceExhausted));
}

#[test]
fn disconnect_leaves_nothing_behind() {
    let mut c = Connection::new(9, 0, 10);
    assert!(c.send_unreliable(1, &vec![1]).is_ok());
    assert!(c.send_reliable(1, vec![1], 0).is_ok());
    assert!(matches!(c.on_packet(&reliable(9, 4, 4)), Delivery::Reliable(_)));
    assert_eq!(c.sender.on_timer(10), Err(ChannelError::ChannelTimeout));
    c.disconnect();
    assert_eq!(c.id, 9);
    assert_eq!((c.unreliable_seq, c.sender.next_seq, c.receiver.next_expected), (0, 0, 0));
    assert!(c.sender.outstanding.is_empty());
    assert!(c.sender.payloads.is_empty());
    assert!(c.receiver.held.is_empty());
    assert!(!c.sender.failed);
    assert_eq!(c.sender.max_retries, 0);
    assert!(c.send_reliable(2, vec![2], 20).is_ok());
}
