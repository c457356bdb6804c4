use lumina::ordered::{Message, ReliableReceiver};
use lumina::reliable::{backoff_delay, ChannelError, Outstanding, ReliableSender};

fn msg(seq: u64) -> Message {
    Message { seq, payload: vec![seq as u8, 0xAB] }
}

fn seqs(msgs: &Vec<Message>) -> Vec<u64> {
    msgs.iter().map(|m| m.seq).collect()
}

#[test]
fn messages_leave_in_sequence_order() {
    let mut r = ReliableReceiver::new(0);
    assert!(r.accept(msg(2)).is_empty());
    assert!(r.accept(msg(1)).is_empty());
    assert_eq!(r.next_expected, 0);
    assert_eq!(r.held.len(), 2);
    let out = r.accept(msg(0));
    assert_eq!(seqs(&out), vec![0, 1, 2]);
    assert_eq!(out[1].payload, vec![1, 0xAB]);
    assert_eq!(r.next_expected, 3);
    assert!(r.held.is_empty());
}

#[test]
fn gap_holds_later_messages_back() {
    let mut r = ReliableReceiver::new(5);
    assert!(r.accept(msg(7)).is_empty());
    assert!(r.accept(msg(9)).is_empty());
    assert_eq!(seqs(&r.accept(msg(5))), vec![5]);
    assert_eq!(seqs(&r.accept(msg(6))), vec![6, 7]);
    assert_eq!(r.next_expected, 8);
    assert_eq!(seqs(&r.held), vec![9]);
}

#[test]
fn duplicates_are_dropped() {
    let mut r = ReliableReceiver::new(0);
    assert_eq!(seqs(&r.accept(msg(0))), vec![0]);
    assert!(r.accept(msg(0)).is_empty());
    assert!(r.accept(msg(2)).is_empty());
    assert!(r.accept(msg(2)).is_empty());
    assert_eq!(r.held.len(), 1);
    assert!(r.accept(msg(u64::MAX)).is_empty());
    assert_eq!(r.held.len(), 1);
    assert_eq!(seqs(&r.accept(msg(1))), vec![1, 2]);
}

#[test]
fn any_arrival_order_gives_the_sending_order() {
    let mut r = ReliableReceiver::new(0);
    let arrived = vec![msg(3), msg(1), msg(1), msg(0), msg(4), msg(2), msg(6)];
    let out = r.accept_all(arrived);
    assert_eq!(seqs(&out), vec![0, 1, 2, 3, 4]);
    assert_eq!(r.next_expected, 5);
    assert_eq!(seqs(&r.held), vec![6]);
}

#[test]
fn sender_numbers_messages_in_order() {
    let mut s = ReliableSender::new(3, 10);
    assert_eq!(s.send(vec![1], 0), Ok(0));
    assert_eq!(s.send(vec![2], 5), Ok(1));
    assert_eq!(s.send(vec![3], 5), Ok(2));
    assert_eq!(s.next_seq, 3);
    assert_eq!(
        s.outstanding,
        vec![
            Outstanding { seq: 0, attempts: 0, deadline: 10 },
            Outstanding { seq: 1, attempts: 0, deadline: 15 },
            Outstanding { seq: 2, attempts: 0, deadline: 15 }
        ]
    );
    assert_eq!(s.payload_of(1), Some(&vec![2]));
    assert_eq!(s.payload_of(3), None);
}

#[test]
fn acknowledged_message_leaves_the_queue() {
    let mut s = ReliableSender::new(3, 10);
    for i in 0..3u8 {
        assert!(s.send(vec![i], 0).is_ok());
    }
    assert!(s.acknowledge(1));
    assert!(!s.acknowledge(1));
    assert!(!s.acknowledge(9));
    assert_eq!(s.outstanding.len(), 2);
    assert_eq!(s.payloads, vec![vec![0], vec![2]]);
    assert_eq!(s.payload_of(1), None);
    assert_eq!(s.payload_of(2), Some(&vec![2]));
}

#[test]
fn backoff_doubles_and_saturates() {
    assert_eq!(backoff_delay(10, 0), 10);
    assert_eq!(backoff_delay(10, 1), 20);
    assert_eq!(backoff_delay(10, 3), 80);
    assert_eq!(backoff_delay(0, 7), 0);
    assert_eq!(backoff_delay(1, 63), 1u64 << 63);
    assert_eq!(backoff_delay(1, 64), u64::MAX);
    assert_eq!(backoff_delay(3, u32::MAX), u64::MAX);
}

#[test]
fn due_messages_are_retransmitted_with_backoff() {
    let mut s = ReliableSender::new(5, 10);
    assert_eq!(s.send(vec![1], 0), Ok(0));
    assert_eq!(s.send(vec![2], 100), Ok(1));
    assert_eq!(s.on_timer(9), Ok(Vec::new()));
    assert_eq!(s.on_timer(10), Ok(vec![0]));
    assert_eq!(s.outstanding[0], Outstanding { seq: 0, attempts: 1, deadline: 30 });
    assert_eq!(s.outstanding[1], Outstanding { seq: 1, attempts: 0, deadline: 110 });
    assert_eq!(s.on_timer(29), Ok(Vec::new()));
    assert_eq!(s.on_timer(30), Ok(vec![0]));
    assert_eq!(s.outstanding[0], Outstanding { seq: 0, attempts: 2, deadline: 70 });
    assert_eq!(s.on_timer(200), Ok(vec![0, 1]));
    assert_eq!(s.outstanding[0], Outstanding { seq: 0, attempts: 3, deadline: 280 });
    assert_eq!(s.outstanding[1], Outstanding { seq: 1, attempts: 1, deadline: 220 });
    assert_eq!(s.payload_of(0), Some(&vec![1]));
}

#[test]
fn spent_retry_budget_fails_the_connection() {
    let mut s = ReliableSender::new(2, 10);
    assert_eq!(s.send(vec![1], 0), Ok(0));
    assert_eq!(s.send(vec![2], 1000), Ok(1));
    assert_eq!(s.on_timer(10), Ok(vec![0]));
    assert_eq!(s.on_timer(30), Ok(vec![0]));
    assert!(!s.failed);
    assert_eq!(s.on_timer(69), Ok(Vec::new()));
    assert_eq!(s.on_timer(70), Err(ChannelError::ChannelTimeout));
    assert!(s.failed);
    assert!(s.outstanding.is_empty());
    assert!(s.payloads.is_empty());
    assert_eq!(s.send(vec![3], 71), Err(ChannelError::ChannelTimeout));
    assert_eq!(s.on_timer(72), Err(ChannelError::ChannelTimeout));
    assert_eq!(s.next_seq, 2);
}

#[test]
fn acknowledged_message_never_times_out() {
    let mut s = ReliableSender::new(0, 10);
    assert_eq!(s.send(vec![1], 0), Ok(0));
    assert!(s.acknowledge(0));
    assert_eq!(s.on_timer(1000), Ok(Vec::new()));
    assert!(!s.failed);
}

#[test]
fn sequence_numbers_run_out() {
    let mut s = ReliableSender::new(1, 10);
    s.next_seq = u64::MAX - 1;
    assert_eq!(s.send(Vec::new(), u64::MAX), Ok(u64::MAX - 1));
    assert_eq!(s.outstanding[0].deadline, u64::MAX);
    assert_eq!(s.send(Vec::new(), 0), Err(ChannelError::SequenceExhausted));
    assert_eq!(s.outstanding.len(), 1);
}

#[test]
fn cumulative_acknowledgment_clears_the_head() {
    let mut s = ReliableSender::new(3, 10);
    for i in 0..5u8 {
        assert!(s.send(vec![i], 0).is_ok());
    }
    assert!(s.acknowledge(1));
    assert_eq!(s.acknowledge_below(3), 2);
    assert_eq!(s.outstanding.iter().map(|o| o.seq).collect::<Vec<u64>>(), vec![3, 4]);
    assert_eq!(s.payloads, vec![vec![3], vec![4]]);
    assert_eq!(s.acknowledge_below(3), 0);
    assert_eq!(s.acknowledge_below(0), 0);
    assert_eq!(s.acknowledge_below(u64::MAX), 2);
    assert!(s.outstanding.is_empty());
    assert_eq!(s.next_seq, 5);
}

#[test]
fn arrival_batch_hands_on_what_arrived() {
    let mut r = ReliableReceiver::new(1);
    assert!(r.accept(msg(3)).is_empty());
    let out = r.accept_all(vec![msg(2), msg(1), msg(0)]);
    assert_eq!(seqs(&out), vec![1, 2, 3]);
    assert_eq!(out[2].payload, vec![3, 0xAB]);
    assert!(r.held.is_empty());
}

#[test]
fn arrival_batch_loses_nothing() {
    let mut r = ReliableReceiver::new(0);
    assert!(r.accept(msg(2)).is_empty());
    let out = r.accept_all(vec![msg(5), msg(0), msg(u64::MAX), msg(1), msg(7), msg(5)]);
    assert_eq!(seqs(&out), vec![0, 1, 2]);
    assert_eq!(r.next_expected, 3);
    let mut waiting = seqs(&r.held);
    waiting.sort();
    assert_eq!(waiting, vec![5, 7]);
    assert_eq!(seqs(&r.accept_all(vec![msg(4), msg(3), msg(6)])), vec![3, 4, 5, 6, 7]);
    assert!(r.held.is_empty());
    assert!(r.accept_all(Vec::new()).is_empty());
    assert_eq!(r.next_expected, 8);
}
