//! The sending end of the reliable-ordered channel: sequence numbers,
//! acknowledgment, and retransmission with exponential backoff under a retry
//! budget.

use vstd::prelude::*;

verus! {

/// Why a reliable channel refuses to work.
#[derive(Clone, Copy, Debug, PartialEq, Eq, Structural)]
pub enum ChannelError {
    /// A message stayed unacknowledged past the retry budget; the connection has failed.
    ChannelTimeout,
    /// Every sequence number of the channel has been used.
    SequenceExhausted,
    /// The payload is longer than a packet's header can announce.
    PayloadTooLarge,
}

/// A sent message that has not been acknowledged.
#[derive(Clone, Copy, Debug, PartialEq, Eq, Structural)]
pub struct Outstanding {
    pub seq: u64,
    /// Retransmissions made so far.
    pub attempts: u32,
    /// Time at which the next retransmission is due.
    pub deadline: u64,
}

/// Sender state of one reliable channel.
pub struct ReliableSender {
    pub next_seq: u64,
    pub outstanding: Vec<Outstanding>,
    /// `payloads[i]` is the payload of `outstanding[i]`, as first sent.
    pub payloads: Vec<Vec<u8>>,
    pub max_retries: u32,
    pub base_timeout: u64,
    pub failed: bool,
}

/// Nearest `u64` at or below an integer that is not negative.
pub open spec fn capped(v: int) -> u64 {
    if v > u64::MAX {
        u64::MAX
    } else {
        v as u64
    }
}

/// The timeout after `attempts` retransmissions: the base doubled each time, capped.
pub open spec fn backoff(base: u64, attempts: nat) -> u64
    decreases attempts,
{
    if attempts == 0 {
        base
    } else {
        capped(2 * backoff(base, (attempts - 1) as nat))
    }
}

pub open spec fn is_due(o: Outstanding, now: u64) -> bool {
    o.deadline <= now
}

/// Some due message has used up its retransmissions.
pub open spec fn budget_spent(s: Seq<Outstanding>, now: u64, max_retries: u32) -> bool {
    exists|i: int| 0 <= i < s.len() && is_due(#[trigger] s[i], now) && s[i].attempts >= max_retries
}

/// A message after the timer ran at `now`: a due one is retransmitted and waits longer.
pub open spec fn after_timer(o: Outstanding, now: u64, base: u64) -> Outstanding {
    if is_due(o, now) && o.attempts < u32::MAX {
        Outstanding {
            seq: o.seq,
            attempts: (o.attempts + 1) as u32,
            deadline: capped(now + backoff(base, (o.attempts + 1) as nat)),
        }
    } else {
        o
    }
}

/// Sequence numbers of the due messages, oldest first.
pub open spec fn due_seqs(s: Seq<Outstanding>, now: u64) -> Seq<u64>
    decreases s.len(),
{
    if s.len() == 0 {
        Seq::empty()
    } else if is_due(s.last(), now) {
        due_seqs(s.drop_last(), now).push(s.last().seq)
    } else {
        due_seqs(s.drop_last(), now)
    }
}

proof fn lemma_backoff_settles(base: u64, i: nat, j: nat)
    requires
        i <= j,
        backoff(base, i) == 0 || backoff(base, i) == u64::MAX,
    ensures
        backoff(base, j) == backoff(base, i),
    decreases j,
{
    if i < j {
        lemma_backoff_settles(base, i, (j - 1) as nat);
    }
}

fn capped_sum(a: u64, b: u64) -> (r: u64)
    ensures
        r == capped(a + b),
{
    if a > u64::MAX - b {
        u64::MAX
    } else {
        a + b
    }
}

/// Computes the timeout after `attempts` retransmissions.
pub fn backoff_delay(base: u64, attempts: u32) -> (d: u64)
    ensures
        d == backoff(base, attempts as nat),
{
    let mut d: u64 = base;
    let mut i: u32 = 0;
    while i < attempts && d != 0 && d != u64::MAX
        invariant
            i <= attempts,
            d == backoff(base, i as nat),
        decreases attempts - i,
    {
        d = capped_sum(d, d);
        i += 1;
    }
    proof {
        if i < attempts {
            lemma_backoff_settles(base, i as nat, attempts as nat);
        }
    }
    d
}

impl ReliableSender {
    /// Sequence numbers rise along the queue and lie below the next one; a
    /// failed sender holds nothing.
    pub open spec fn wf(&self) -> bool {
        &&& self.payloads.len() == self.outstanding.len()
        &&& forall|i: int|
            0 <= i < self.outstanding.len() ==> (#[trigger] self.outstanding@[i]).seq
                < self.next_seq
        &&& forall|i: int, j: int|
            0 <= i < j < self.outstanding.len() ==> (#[trigger] self.outstanding@[i]).seq < (
            #[trigger] self.outstanding@[j]).seq
        &&& self.failed ==> self.outstanding.len() == 0
    }

    /// A message with this sequence number awaits its acknowledgment.
    pub open spec fn awaits(&self, seq: u64) -> bool {
        exists|i: int|
            0 <= i < self.outstanding.len() && (#[trigger] self.outstanding@[i]).seq == seq
    }

    pub fn new(max_retries: u32, base_timeout: u64) -> (s: Self)
        ensures
            s.wf(),
            s.next_seq == 0,
            s.outstanding@ == Seq::<Outstanding>::empty(),
            s.max_retries == max_retries,
            s.base_timeout == base_timeout,
            !s.failed,
    {
        ReliableSender {
            next_seq: 0,
            outstanding: Vec::new(),
            payloads: Vec::new(),
            max_retries,
            base_timeout,
            failed: false,
        }
    }

    fn position_of(&self, seq: u64) -> (r: Option<usize>)
        ensures
            r is Some ==> r->0 < self.outstanding.len() && self.outstanding@[r->0 as int].seq
                == seq,
            r is None ==> !self.awaits(seq),
    {
        let mut i: usize = 0;
        while i < self.outstanding.len()
            invariant
                i <= self.outstanding.len(),
                forall|j: int| 0 <= j < i ==> (#[trigger] self.outstanding@[j]).seq != seq,
            decreases self.outstanding.len() - i,
        {
            if self.outstanding[i].seq == seq {
                return Some(i);
            }
            i += 1;
        }
        None
    }

    /// Gives the payload the next sequence number of the channel and keeps it
    /// until it is acknowledged. A failed connection sends nothing.
    pub fn send(&mut self, payload: Vec<u8>, now: u64) -> (r: Result<u64, ChannelError>)
        requires
            old(self).wf(),
        ensures
            final(self).wf(),
            final(self).max_retries == old(self).max_retries,
            final(self).base_timeout == old(self).base_timeout,
            final(self).failed == old(self).failed,
            old(self).failed ==> r == Err::<u64, ChannelError>(ChannelError::ChannelTimeout),
            !old(self).failed && old(self).next_seq == u64::MAX ==> r == Err::<u64, ChannelError>(
                ChannelError::SequenceExhausted,
            ),
            !old(self).failed && old(self).next_seq < u64::MAX ==> r == Ok::<u64, ChannelError>(
                old(self).next_seq,
            ),
            r is Err ==> *final(self) == *old(self),
            r is Ok ==> {
                &&& final(self).next_seq == old(self).next_seq + 1
                &&& final(self).outstanding@ == old(self).outstanding@.push(
                    Outstanding {
                        seq: old(self).next_seq,
                        attempts: 0,
                        deadline: capped(now + old(self).base_timeout),
                    },
                )
                &&& final(self).payloads@ == old(self).payloads@.push(payload)
            },
    {
        if self.failed {
            return Err(ChannelError::ChannelTimeout);
        }
        if self.next_seq == u64::MAX {
            return Err(ChannelError::SequenceExhausted);
        }
        let seq: u64 = self.next_seq;
        let deadline: u64 = capped_sum(now, self.base_timeout);
        self.outstanding.push(Outstanding { seq, attempts: 0, deadline });
        self.payloads.push(payload);
        self.next_seq = seq + 1;
        Ok(seq)
    }

    /// Takes note of an acknowledgment: the message leaves the queue. An
    /// acknowledgment for a message that is not waiting changes nothing.
    pub fn acknowledge(&mut self, seq: u64) -> (found: bool)
        requires
            old(self).wf(),
        ensures
            final(self).wf(),
            found == old(self).awaits(seq),
            !final(self).awaits(seq),
            final(self).next_seq == old(self).next_seq,
            final(self).max_retries == old(self).max_retries,
            final(self).base_timeout == old(self).base_timeout,
            final(self).failed == old(self).failed,
            !found ==> *final(self) == *old(self),
            found ==> exists|i: int|
                0 <= i < old(self).outstanding.len() && (#[trigger] old(self).outstanding@[i]).seq
                    == seq && final(self).outstanding@ == old(self).outstanding@.remove(i)
                    && final(self).payloads@ == old(self).payloads@.remove(i),
    {
        match self.position_of(seq) {
            None => false,
            Some(at) => {
                let ghost before = self.outstanding@;
                self.outstanding.remove(at);
                self.payloads.remove(at);
                proof {
                    let after = self.outstanding@;
                    assert forall|i: int| 0 <= i < after.len() implies (#[trigger] after[i]).seq
                        < self.next_seq && after[i].seq != seq by {
                        if i < at {
                            assert(after[i] == before[i]);
                        } else {
                            assert(after[i] == before[i + 1]);
                        }
                    }
                    assert forall|i: int, j: int| 0 <= i < j < after.len() implies (
                    #[trigger] after[i]).seq < (#[trigger] after[j]).seq by {
                        let a = if i < at { i } else { i + 1 };
                        let b = if j < at { j } else { j + 1 };
                        assert(after[i] == before[a]);
                        assert(after[j] == before[b]);
                    }
                    assert(before[at as int].seq == seq);
                }
                true
            },
        }
    }

    /// The payload of a waiting message, as it was first sent.
    pub fn payload_of(&self, seq: u64) -> (r: Option<&Vec<u8>>)
        requires
            self.wf(),
        ensures
            r is Some <==> self.awaits(seq),
            r is Some ==> exists|i: int|
                0 <= i < self.outstanding.len() && (#[trigger] self.outstanding@[i]).seq == seq
                    && *r->0 == self.payloads@[i],
    {
        match self.position_of(seq) {
            None => None,
            Some(at) => Some(&self.payloads[at]),
        }
    }
}

impl ReliableSender {
    /// Runs the retransmission timer at `now`.
    ///
    /// When a due message has used up the retry budget the connection fails:
    /// everything waiting is discarded and nothing is sent to it again.
    /// Otherwise every due message is retransmitted once more and its next
    /// deadline moves out by the doubled timeout; the result lists their
    /// sequence numbers, oldest first.
    pub fn on_timer(&mut self, now: u64) -> (r: Result<Vec<u64>, ChannelError>)
        requires
            old(self).wf(),
        ensures
            final(self).wf(),
            final(self).next_seq == old(self).next_seq,
            final(self).max_retries == old(self).max_retries,
            final(self).base_timeout == old(self).base_timeout,
            r is Err ==> r == Err::<Vec<u64>, ChannelError>(ChannelError::ChannelTimeout),
            r is Err <==> old(self).failed || budget_spent(
                old(self).outstanding@,
                now,
                old(self).max_retries,
            ),
            r is Err ==> {
                &&& final(self).failed
                &&& final(self).outstanding@ == Seq::<Outstanding>::empty()
                &&& final(self).payloads@ == Seq::<Vec<u8>>::empty()
            },
            r is Ok ==> {
                &&& !final(self).failed
                &&& r->Ok_0@ == due_seqs(old(self).outstanding@, now)
                &&& final(self).payloads == old(self).payloads
                &&& final(self).outstanding.len() == old(self).outstanding.len()
                &&& forall|i: int|
                    0 <= i < old(self).outstanding.len() ==> #[trigger] final(self).outstanding@[i]
                        == after_timer(old(self).outstanding@[i], now, old(self).base_timeout)
            },
    {
        if self.failed {
            proof {
                assert(self.outstanding@ =~= Seq::<Outstanding>::empty());
                assert(self.payloads@ =~= Seq::<Vec<u8>>::empty());
            }
            return Err(ChannelError::ChannelTimeout);
        }
        let ghost pre = self.outstanding@;
        let mut i: usize = 0;
        while i < self.outstanding.len()
            invariant
                i <= self.outstanding.len(),
                self.outstanding@ == pre,
                pre == old(self).outstanding@,
                self.payloads == old(self).payloads,
                self.next_seq == old(self).next_seq,
                self.max_retries == old(self).max_retries,
                self.base_timeout == old(self).base_timeout,
                !self.failed,
                forall|j: int|
                    0 <= j < i ==> !(is_due(#[trigger] pre[j], now) && pre[j].attempts
                        >= self.max_retries),
            decreases self.outstanding.len() - i,
        {
            let o: Outstanding = self.outstanding[i];
            if o.deadline <= now && o.attempts >= self.max_retries {
                self.failed = true;
                self.outstanding = Vec::new();
                self.payloads = Vec::new();
                proof {
                    assert(is_due(pre[i as int], now) && pre[i as int].attempts
                        >= self.max_retries);
                }
                return Err(ChannelError::ChannelTimeout);
            }
            i += 1;
        }
        let mut due: Vec<u64> = Vec::new();
        let mut i: usize = 0;
        while i < self.outstanding.len()
            invariant
                i <= self.outstanding.len(),
                self.outstanding.len() == pre.len(),
                pre == old(self).outstanding@,
                self.payloads == old(self).payloads,
                self.next_seq == old(self).next_seq,
                self.max_retries == old(self).max_retries,
                self.base_timeout == old(self).base_timeout,
                !self.failed,
                !budget_spent(pre, now, self.max_retries),
                forall|j: int|
                    0 <= j < i ==> #[trigger] self.outstanding@[j] == after_timer(
                        pre[j],
                        now,
                        self.base_timeout,
                    ),
                forall|j: int| i <= j < pre.len() ==> #[trigger] self.outstanding@[j] == pre[j],
                due@ == due_seqs(pre.take(i as int), now),
            decreases self.outstanding.len() - i,
        {
            let o: Outstanding = self.outstanding[i];
            proof {
                assert(pre.take(i + 1).drop_last() =~= pre.take(i as int));
                assert(pre.take(i + 1).last() == pre[i as int]);
                assert(!(is_due(pre[i as int], now) && pre[i as int].attempts
                    >= self.max_retries));
            }
            if o.deadline <= now {
                let attempts: u32 = o.attempts + 1;
                let deadline: u64 = capped_sum(now, backoff_delay(self.base_timeout, attempts));
                self.outstanding.set(i, Outstanding { seq: o.seq, attempts, deadline });
                due.push(o.seq);
            }
            i += 1;
        }
        proof {
            assert(pre.take(pre.len() as int) =~= pre);
            assert forall|a: int, b: int| 0 <= a < b < self.outstanding.len() implies (
            #[trigger] self.outstanding@[a]).seq < (#[trigger] self.outstanding@[b]).seq by {
                assert(self.outstanding@[a].seq == pre[a].seq);
                assert(self.outstanding@[b].seq == pre[b].seq);
            }
            assert forall|a: int| 0 <= a < self.outstanding.len() implies (
            #[trigger] self.outstanding@[a]).seq < self.next_seq by {
                assert(self.outstanding@[a].seq == pre[a].seq);
            }
        }
        Ok(due)
    }
}

/// The number of messages at the head of the queue with a sequence number below `cursor`.
pub open spec fn acked_count(s: Seq<Outstanding>, cursor: u64) -> int
    decreases s.len(),
{
    if s.len() == 0 || s[0].seq >= cursor {
        0
    } else {
        1 + acked_count(s.skip(1), cursor)
    }
}

impl ReliableSender {
    /// Takes note of a cumulative acknowledgment: the receiver has handed on
    /// every message below `cursor`, so those leave the queue. The result is
    /// their number.
    pub fn acknowledge_below(&mut self, cursor: u64) -> (n: usize)
        requires
            old(self).wf(),
        ensures
            final(self).wf(),
            n == acked_count(old(self).outstanding@, cursor),
            n <= old(self).outstanding.len(),
            final(self).outstanding@ == old(self).outstanding@.skip(n as int),
            final(self).payloads@ == old(self).payloads@.skip(n as int),
            forall|i: int|
                0 <= i < final(self).outstanding.len() ==> (#[trigger] final(self).outstanding@[i]).seq
                    >= cursor,
            forall|i: int| 0 <= i < n ==> (#[trigger] old(self).outstanding@[i]).seq < cursor,
            final(self).next_seq == old(self).next_seq,
            final(self).max_retries == old(self).max_retries,
            final(self).base_timeout == old(self).base_timeout,
            final(self).failed == old(self).failed,
    {
        let ghost all = self.outstanding@;
        let mut n: usize = 0;
        proof {
            assert(all.skip(0) =~= all);
        }
        while n < self.outstanding.len() && self.outstanding[n].seq < cursor
            invariant
                n <= self.outstanding.len(),
                self.outstanding@ == all,
                forall|i: int| 0 <= i < n ==> (#[trigger] all[i]).seq < cursor,
                acked_count(all, cursor) == n + acked_count(all.skip(n as int), cursor),
            decreases self.outstanding.len() - n,
        {
            proof {
                assert(all.skip(n as int)[0] == all[n as int]);
                assert(all.skip(n as int).skip(1) =~= all.skip(n + 1));
            }
            n += 1;
        }
        proof {
            if n < all.len() {
                assert(all.skip(n as int)[0] == all[n as int]);
            }
        }
        let rest = self.outstanding.split_off(n);
        let rest_payloads = self.payloads.split_off(n);
        self.outstanding = rest;
        self.payloads = rest_payloads;
        proof {
            assert(self.outstanding@ =~= all.skip(n as int));
            assert(self.payloads@ =~= old(self).payloads@.skip(n as int));
            assert forall|i: int| 0 <= i < self.outstanding.len() implies (
            #[trigger] self.outstanding@[i]).seq >= cursor && self.outstanding@[i].seq
                < self.next_seq by {
                assert(self.outstanding@[i] == all[n + i]);
                if i > 0 {
                    assert(all[n as int].seq < all[n + i].seq);
                }
            }
            assert forall|i: int, j: int| 0 <= i < j < self.outstanding.len() implies (
            #[trigger] self.outstanding@[i]).seq < (#[trigger] self.outstanding@[j]).seq by {
                assert(self.outstanding@[i] == all[n + i]);
                assert(self.outstanding@[j] == all[n + j]);
            }
        }
        n
    }
}

} // verus!
