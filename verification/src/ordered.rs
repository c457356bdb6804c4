//! The receiving end of the reliable-ordered channel: messages may arrive in
//! any order and more than once, and leave in the sender's sequence order.

use vstd::prelude::*;

verus! {

/// A message with the sequence number that its sender gave it.
pub struct Message {
    pub seq: u64,
    pub payload: Vec<u8>,
}

/// Reordering buffer of one reliable channel.
pub struct ReliableReceiver {
    /// Sequence number of the next message to hand on.
    pub next_expected: u64,
    /// Messages that arrived ahead of their turn.
    pub held: Vec<Message>,
}

impl ReliableReceiver {
    /// Every held message is still to come, and no sequence number is held twice.
    pub open spec fn wf(&self) -> bool {
        &&& forall|i: int|
            0 <= i < self.held.len() ==> self.next_expected < (#[trigger] self.held@[i]).seq
                < u64::MAX
        &&& forall|i: int, j: int|
            0 <= i < j < self.held.len() ==> (#[trigger] self.held@[i]).seq != (
            #[trigger] self.held@[j]).seq
    }

    /// A message with this sequence number waits in the buffer.
    pub open spec fn holds_seq(&self, seq: u64) -> bool {
        exists|i: int| 0 <= i < self.held.len() && (#[trigger] self.held@[i]).seq == seq
    }

    /// The message with this sequence number has been handed on, or waits in
    /// the buffer for its turn.
    pub open spec fn settled(&self, seq: u64) -> bool {
        seq < self.next_expected || self.holds_seq(seq)
    }

    /// A receiver that expects `first` next.
    pub fn new(first: u64) -> (r: Self)
        ensures
            r.wf(),
            r.next_expected == first,
            r.held@ == Seq::<Message>::empty(),
    {
        ReliableReceiver { next_expected: first, held: Vec::new() }
    }

    fn position_of(&self, seq: u64) -> (r: Option<usize>)
        ensures
            r is Some ==> r->0 < self.held.len() && self.held@[r->0 as int].seq == seq,
            r is None ==> !self.holds_seq(seq),
    {
        let mut i: usize = 0;
        while i < self.held.len()
            invariant
                i <= self.held.len(),
                forall|j: int| 0 <= j < i ==> (#[trigger] self.held@[j]).seq != seq,
            decreases self.held.len() - i,
        {
            if self.held[i].seq == seq {
                return Some(i);
            }
            i += 1;
        }
        None
    }

    /// Takes in a message and returns those that can now be handed on, in
    /// sequence order.
    ///
    /// A message that was handed on before, or that is already held, is
    /// dropped; so is one with the largest sequence number, after which none
    /// could follow. One ahead of its turn is held. The expected one is handed
    /// on, followed by the held messages that continue the sequence without a
    /// gap; nothing held is lost.
    pub fn accept(&mut self, msg: Message) -> (delivered: Vec<Message>)
        requires
            old(self).wf(),
        ensures
            final(self).wf(),
            accepted(*old(self), *final(self), msg, delivered@),
    {
        let ghost pre = *self;
        let mut out: Vec<Message> = Vec::new();
        if msg.seq < self.next_expected || msg.seq == u64::MAX {
            return out;
        }
        if msg.seq > self.next_expected {
            match self.position_of(msg.seq) {
                Some(_) => {},
                None => {
                    self.held.push(msg);
                },
            }
            return out;
        }
        assert(!pre.holds_seq(msg.seq)) by {
            if pre.holds_seq(msg.seq) {
                let i = choose|i: int| 0 <= i < pre.held.len() && (#[trigger] pre.held@[i]).seq
                    == msg.seq;
                assert(pre.held@[i].seq > pre.next_expected);
            }
        }
        out.push(msg);
        self.next_expected = self.next_expected + 1;
        let mut more: bool = true;
        while more
            invariant
                pre.wf(),
                self.next_expected == pre.next_expected + out.len(),
                out.len() >= 1,
                out@[0] == msg,
                forall|i: int|
                    0 <= i < out.len() ==> (#[trigger] out@[i]).seq == pre.next_expected + i,
                forall|i: int|
                    0 <= i < self.held.len() ==> self.next_expected <= (#[trigger] self.held@[i]).seq
                        < u64::MAX,
                forall|i: int, j: int|
                    0 <= i < j < self.held.len() ==> (#[trigger] self.held@[i]).seq != (
                    #[trigger] self.held@[j]).seq,
                forall|i: int| 1 <= i < out.len() ==> pre.held@.contains(#[trigger] out@[i]),
                forall|i: int|
                    0 <= i < self.held.len() ==> pre.held@.contains(#[trigger] self.held@[i]),
                forall|i: int|
                    0 <= i < pre.held.len() ==> out@.contains(#[trigger] pre.held@[i])
                        || self.held@.contains(pre.held@[i]),
                !more ==> !self.holds_seq(self.next_expected),
            decreases self.held.len() + (if more { 1int } else { 0int }),
        {
            match self.position_of(self.next_expected) {
                None => {
                    more = false;
                },
                Some(at) => {
                    let ghost held1 = self.held@;
                    let ghost out1 = out@;
                    let m: Message = self.held.remove(at);
                    out.push(m);
                    self.next_expected = self.next_expected + 1;
                    proof {
                        let held2 = self.held@;
                        let out2 = out@;
                        assert forall|i: int| 0 <= i < held2.len() implies self.next_expected <= (
                        #[trigger] held2[i]).seq < u64::MAX by {
                            if i < at {
                                assert(held2[i] == held1[i]);
                            } else {
                                assert(held2[i] == held1[i + 1]);
                            }
                        }
                        assert forall|i: int, j: int| 0 <= i < j < held2.len() implies (
                        #[trigger] held2[i]).seq != (#[trigger] held2[j]).seq by {
                            let a = if i < at { i } else { i + 1 };
                            let b = if j < at { j } else { j + 1 };
                            assert(held2[i] == held1[a]);
                            assert(held2[j] == held1[b]);
                        }
                        assert forall|i: int| 1 <= i < out2.len() implies pre.held@.contains(
                            #[trigger] out2[i],
                        ) by {
                            if i < out1.len() {
                                assert(out2[i] == out1[i]);
                            } else {
                                assert(out2[i] == held1[at as int]);
                            }
                        }
                        assert forall|i: int| 0 <= i < held2.len() implies pre.held@.contains(
                            #[trigger] held2[i],
                        ) by {
                            if i < at {
                                assert(held2[i] == held1[i]);
                            } else {
                                assert(held2[i] == held1[i + 1]);
                            }
                        }
                        assert forall|i: int| 0 <= i < pre.held.len() implies out2.contains(
                            #[trigger] pre.held@[i],
                        ) || held2.contains(pre.held@[i]) by {
                            let x = pre.held@[i];
                            if out1.contains(x) {
                                let k = choose|k: int| 0 <= k < out1.len() && out1[k] == x;
                                assert(out2[k] == x);
                            } else {
                                let j = choose|j: int| 0 <= j < held1.len() && held1[j] == x;
                                if j == at {
                                    assert(out2[out1.len() as int] == x);
                                } else if j < at {
                                    assert(held2[j] == x);
                                } else {
                                    assert(held2[j - 1] == x);
                                }
                            }
                        }
                        assert forall|i: int| 0 <= i < out2.len() implies (#[trigger] out2[i]).seq
                            == pre.next_expected + i by {
                            if i < out1.len() {
                                assert(out2[i] == out1[i]);
                            }
                        }
                    }
                },
            }
        }
        out
    }
}

/// How `accept` changes a receiver: `post` is `pre` after `msg` arrived and
/// `delivered` was handed on.
pub open spec fn accepted(
    pre: ReliableReceiver,
    post: ReliableReceiver,
    msg: Message,
    delivered: Seq<Message>,
) -> bool {
    &&& post.next_expected == pre.next_expected + delivered.len()
    &&& in_sequence(delivered, pre.next_expected as int)
    &&& (msg.seq < pre.next_expected || msg.seq == u64::MAX || pre.holds_seq(msg.seq))
        ==> delivered.len() == 0 && post.held@ == pre.held@
    &&& (pre.next_expected < msg.seq < u64::MAX && !pre.holds_seq(msg.seq)) ==> delivered.len()
        == 0 && post.held@ == pre.held@.push(msg)
    &&& (msg.seq == pre.next_expected && msg.seq < u64::MAX) ==> {
        &&& delivered.len() >= 1
        &&& delivered[0] == msg
        &&& forall|i: int| 1 <= i < delivered.len() ==> pre.held@.contains(#[trigger] delivered[i])
        &&& forall|i: int| 0 <= i < post.held.len() ==> pre.held@.contains(#[trigger] post.held@[i])
        &&& forall|i: int|
            0 <= i < pre.held.len() ==> delivered.contains(#[trigger] pre.held@[i])
                || post.held@.contains(pre.held@[i])
    }
}

/// One call of `accept` loses nothing: a message that was handed on or
/// waited before is handed on or waits after it, the message that arrived is
/// handed on or waits unless it carries the largest sequence number, and every
/// message that waited is in what was handed on or waits still.
pub proof fn lemma_accept_settles(
    pre: ReliableReceiver,
    post: ReliableReceiver,
    msg: Message,
    delivered: Seq<Message>,
)
    requires
        pre.wf(),
        accepted(pre, post, msg, delivered),
    ensures
        forall|i: int|
            0 <= i < pre.held.len() ==> delivered.contains(#[trigger] pre.held@[i])
                || post.held@.contains(pre.held@[i]),
        forall|seq: u64| #[trigger] pre.settled(seq) ==> post.settled(seq),
        msg.seq < u64::MAX ==> post.settled(msg.seq),
{
    assert forall|i: int| 0 <= i < pre.held.len() implies delivered.contains(
        #[trigger] pre.held@[i],
    ) || post.held@.contains(pre.held@[i]) by {
        if !(msg.seq == pre.next_expected && msg.seq < u64::MAX) {
            assert(post.held@[i] == pre.held@[i]);
        }
    }
    assert forall|seq: u64| #[trigger] pre.settled(seq) implies post.settled(seq) by {
        if seq >= pre.next_expected {
            let j = choose|j: int| 0 <= j < pre.held.len() && (#[trigger] pre.held@[j]).seq == seq;
            let x = pre.held@[j];
            if delivered.contains(x) {
                let d = choose|d: int| 0 <= d < delivered.len() && delivered[d] == x;
                assert(delivered[d].seq == pre.next_expected + d);
            } else {
                let h = choose|h: int| 0 <= h < post.held@.len() && post.held@[h] == x;
                assert(post.held@[h].seq == seq);
            }
        }
    }
    if msg.seq < u64::MAX {
        if msg.seq < pre.next_expected {
        } else if msg.seq == pre.next_expected {
            assert(delivered.len() >= 1);
        } else if pre.holds_seq(msg.seq) {
            assert(pre.settled(msg.seq));
        } else {
            assert(post.held@[pre.held@.len() as int] == msg);
        }
    }
}

/// The messages carry the sequence numbers `first`, `first + 1`, ... in this order.
pub open spec fn in_sequence(msgs: Seq<Message>, first: int) -> bool {
    forall|i: int| 0 <= i < msgs.len() ==> (#[trigger] msgs[i]).seq == first + i
}

impl ReliableReceiver {
    /// Takes in the messages in the order of their arrival. Whatever that
    /// order was, what is handed on is in the sender's sequence order, without
    /// a gap and without a repeat, and it is the longest such run that the
    /// messages at hand allow: the next expected message is not among them.
    /// Nothing is lost on the way. Every message that arrived, but for one
    /// with the largest sequence number, has been handed on, now or earlier,
    /// or waits in the buffer; every message that waited before is in what
    /// is handed on or waits still.
    pub fn accept_all(&mut self, arrived: Vec<Message>) -> (delivered: Vec<Message>)
        requires
            old(self).wf(),
        ensures
            final(self).wf(),
            final(self).next_expected == old(self).next_expected + delivered.len(),
            in_sequence(delivered@, old(self).next_expected as int),
            forall|i: int|
                0 <= i < delivered.len() ==> arrived@.contains(#[trigger] delivered@[i]) || old(
                    self,
                ).held@.contains(delivered@[i]),
            forall|i: int|
                0 <= i < final(self).held.len() ==> arrived@.contains(
                    #[trigger] final(self).held@[i],
                ) || old(self).held@.contains(final(self).held@[i]),
            forall|i: int|
                0 <= i < arrived.len() && (#[trigger] arrived@[i]).seq < u64::MAX
                    ==> final(self).settled(arrived@[i].seq),
            forall|i: int|
                0 <= i < old(self).held.len() ==> delivered@.contains(
                    #[trigger] old(self).held@[i],
                ) || final(self).held@.contains(old(self).held@[i]),
            !final(self).holds_seq(final(self).next_expected),
    {
        let ghost first = self.next_expected;
        let ghost all = arrived@;
        let ghost done: int = 0;
        let mut arrived = arrived;
        let mut out: Vec<Message> = Vec::new();
        while arrived.len() > 0
            invariant
                self.wf(),
                self.next_expected == first + out.len(),
                in_sequence(out@, first as int),
                forall|i: int| 0 <= i < arrived.len() ==> all.contains(#[trigger] arrived@[i]),
                forall|i: int|
                    0 <= i < out.len() ==> all.contains(#[trigger] out@[i]) || old(
                        self,
                    ).held@.contains(out@[i]),
                forall|i: int|
                    0 <= i < self.held.len() ==> all.contains(#[trigger] self.held@[i]) || old(
                        self,
                    ).held@.contains(self.held@[i]),
                0 <= done <= all.len(),
                arrived@ == all.skip(done),
                forall|i: int|
                    0 <= i < done && (#[trigger] all[i]).seq < u64::MAX ==> self.settled(
                        all[i].seq,
                    ),
                forall|i: int|
                    0 <= i < old(self).held.len() ==> out@.contains(#[trigger] old(self).held@[i])
                        || self.held@.contains(old(self).held@[i]),
            decreases arrived.len(),
        {
            let ghost rest = arrived@;
            let ghost held1 = self.held@;
            let ghost before = *self;
            let msg: Message = arrived.remove(0);
            let ghost taken = msg;
            let mut batch: Vec<Message> = self.accept(msg);
            let ghost out1 = out@;
            let ghost batch1 = batch@;
            out.append(&mut batch);
            proof {
                lemma_accept_settles(before, *self, taken, batch1);
                assert(taken == all[done]);
                assert(arrived@ =~= all.skip(done + 1));
                assert forall|i: int|
                    0 <= i < done + 1 && (#[trigger] all[i]).seq < u64::MAX implies self.settled(
                    all[i].seq,
                ) by {
                    if i < done {
                        assert(before.settled(all[i].seq));
                    }
                }
                assert forall|i: int| 0 <= i < old(self).held.len() implies out@.contains(
                    #[trigger] old(self).held@[i],
                ) || self.held@.contains(old(self).held@[i]) by {
                    let x = old(self).held@[i];
                    if out1.contains(x) {
                        let a = choose|a: int| 0 <= a < out1.len() && out1[a] == x;
                        assert(out@[a] == x);
                    } else {
                        let h = choose|h: int| 0 <= h < held1.len() && held1[h] == x;
                        assert(before.held@[h] == x);
                        if batch1.contains(x) {
                            let b = choose|b: int| 0 <= b < batch1.len() && batch1[b] == x;
                            assert(out@[out1.len() + b] == x);
                        }
                    }
                }
                done = done + 1;
                assert(msg == rest[0]);
                assert forall|i: int| 0 <= i < arrived.len() implies all.contains(
                    #[trigger] arrived@[i],
                ) by {
                    assert(arrived@[i] == rest[i + 1]);
                }
                assert forall|i: int| 0 <= i < self.held.len() implies all.contains(
                    #[trigger] self.held@[i],
                ) || old(self).held@.contains(self.held@[i]) by {
                    let x = self.held@[i];
                    if x != msg {
                        assert(held1.contains(x)) by {
                            if self.held@ == held1 {
                                assert(held1[i] == x);
                            } else if self.held@ == held1.push(msg) {
                                assert(held1[i] == x);
                            }
                        }
                    }
                }
                assert forall|i: int| 0 <= i < batch1.len() implies all.contains(
                    #[trigger] batch1[i],
                ) || old(self).held@.contains(batch1[i]) by {
                    let x = batch1[i];
                    if i > 0 {
                        assert(held1.contains(x));
                    }
                }
                assert forall|i: int| 0 <= i < out@.len() implies all.contains(#[trigger] out@[i])
                    || old(self).held@.contains(out@[i]) by {
                    if i < out1.len() {
                        assert(out@[i] == out1[i]);
                    } else {
                        assert(out@[i] == batch1[i - out1.len()]);
                    }
                }
                assert forall|i: int| 0 <= i < out@.len() implies (#[trigger] out@[i]).seq == first
                    + i by {
                    if i < out1.len() {
                        assert(out@[i] == out1[i]);
                    } else {
                        assert(out@[i] == batch1[i - out1.len()]);
                    }
                }
            }
        }
        proof {
            assert(all.skip(0) =~= all);
            if self.holds_seq(self.next_expected) {
                let h = choose|h: int|
                    0 <= h < self.held.len() && (#[trigger] self.held@[h]).seq
                        == self.next_expected;
                assert(self.held@[h].seq > self.next_expected);
            }
        }
        out
    }
}

/// What is handed on by one call continues what was handed on before:
/// batches that follow each other form one run in sequence order.
pub proof fn lemma_batches_continue(first: int, a: Seq<Message>, b: Seq<Message>)
    requires
        in_sequence(a, first),
        in_sequence(b, first + a.len()),
    ensures
        in_sequence(a + b, first),
        forall|i: int, j: int|
            0 <= i < j < (a + b).len() ==> (#[trigger] (a + b)[i]).seq < (#[trigger] (a + b)[j]).seq,
{
    assert forall|i: int| 0 <= i < (a + b).len() implies (#[trigger] (a + b)[i]).seq == first
        + i by {
        if i < a.len() {
            assert((a + b)[i] == a[i]);
        } else {
            assert((a + b)[i] == b[i - a.len()]);
        }
    }
}

} // verus!
