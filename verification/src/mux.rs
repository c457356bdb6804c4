//! One connection's channels over one transport: packets that leave get the
//! next sequence number of their channel, packets that arrive are handed to
//! the channel that their header names.

use vstd::prelude::*;
use crate::ordered::{accepted, Message, ReliableReceiver};
use crate::reliable::{capped, ChannelError, Outstanding, ReliableSender};
use crate::wire::{
    decode_packet, encode_packet, header_bytes, header_of, well_formed, PacketHeader, HEADER_LEN,
    RELIABLE, UNRELIABLE,
};

verus! {

/// The channels of one connection.
pub struct Connection {
    /// The identifier that both peers know the connection by.
    pub id: u64,
    /// Sequence number of the next packet on the unreliable channel.
    pub unreliable_seq: u64,
    pub sender: ReliableSender,
    pub receiver: ReliableReceiver,
}

/// What an arriving packet turned into.
pub enum Delivery {
    /// Not a well-formed packet of this connection.
    Rejected,
    /// A packet of the unreliable channel, handed on as it came.
    Unreliable(PacketHeader, Vec<u8>),
    /// The messages of the reliable channel that can now be applied, in sequence order.
    Reliable(Vec<Message>),
}

impl Connection {
    pub open spec fn wf(&self) -> bool {
        self.sender.wf() && self.receiver.wf()
    }

    /// A packet is for this connection.
    pub open spec fn admits(&self, bytes: Seq<u8>) -> bool {
        well_formed(bytes) && header_of(bytes).connection == self.id
    }

    pub fn new(id: u64, max_retries: u32, base_timeout: u64) -> (c: Self)
        ensures
            c.wf(),
            c.id == id,
            c.unreliable_seq == 0,
            c.sender.next_seq == 0,
            c.sender.outstanding@ == Seq::<Outstanding>::empty(),
            c.sender.max_retries == max_retries,
            c.sender.base_timeout == base_timeout,
            !c.sender.failed,
            c.receiver.next_expected == 0,
            c.receiver.held@ == Seq::<Message>::empty(),
    {
        Connection {
            id,
            unreliable_seq: 0,
            sender: ReliableSender::new(max_retries, base_timeout),
            receiver: ReliableReceiver::new(0),
        }
    }

    /// Ends the connection: everything that waits for retransmission or for
    /// its turn is discarded and every sequence counter starts over, so that
    /// nothing of this session reaches a later one under the same identifier.
    pub fn disconnect(&mut self)
        ensures
            final(self).wf(),
            final(self).id == old(self).id,
            final(self).unreliable_seq == 0,
            final(self).sender.next_seq == 0,
            final(self).sender.outstanding@ == Seq::<Outstanding>::empty(),
            final(self).sender.payloads@ == Seq::<Vec<u8>>::empty(),
            final(self).sender.max_retries == old(self).sender.max_retries,
            final(self).sender.base_timeout == old(self).sender.base_timeout,
            !final(self).sender.failed,
            final(self).receiver.next_expected == 0,
            final(self).receiver.held@ == Seq::<Message>::empty(),
    {
        self.unreliable_seq = 0;
        self.sender.next_seq = 0;
        self.sender.outstanding = Vec::new();
        self.sender.payloads = Vec::new();
        self.sender.failed = false;
        self.receiver.next_expected = 0;
        self.receiver.held = Vec::new();
    }

    /// Why a payload cannot be sent on a channel whose next sequence number is `next_seq`.
    pub open spec fn refusal(&self, next_seq: u64, payload: Seq<u8>) -> Option<ChannelError> {
        if self.sender.failed {
            Some(ChannelError::ChannelTimeout)
        } else if next_seq == u64::MAX {
            Some(ChannelError::SequenceExhausted)
        } else if payload.len() > u32::MAX {
            Some(ChannelError::PayloadTooLarge)
        } else {
            None
        }
    }

    /// Makes the packet that carries `payload` on the unreliable channel. It
    /// is sent once and never again.
    pub fn send_unreliable(&mut self, tick: u64, payload: &Vec<u8>) -> (r: Result<
        Vec<u8>,
        ChannelError,
    >)
        requires
            old(self).wf(),
        ensures
            final(self).wf(),
            final(self).id == old(self).id,
            final(self).sender == old(self).sender,
            final(self).receiver == old(self).receiver,
            match old(self).refusal(old(self).unreliable_seq, payload@) {
                Some(e) => r == Err::<Vec<u8>, ChannelError>(e) && final(self).unreliable_seq
                    == old(self).unreliable_seq,
                None => r is Ok && final(self).unreliable_seq == old(self).unreliable_seq + 1
                    && r->Ok_0@ == header_bytes(
                    PacketHeader {
                        connection: old(self).id,
                        channel: UNRELIABLE,
                        seq: old(self).unreliable_seq,
                        tick,
                        payload_len: payload@.len() as u32,
                    },
                ) + payload@,
            },
    {
        if self.sender.failed {
            return Err(ChannelError::ChannelTimeout);
        }
        if self.unreliable_seq == u64::MAX {
            return Err(ChannelError::SequenceExhausted);
        }
        match encode_packet(self.id, UNRELIABLE, self.unreliable_seq, tick, payload) {
            None => Err(ChannelError::PayloadTooLarge),
            Some(bytes) => {
                self.unreliable_seq = self.unreliable_seq + 1;
                Ok(bytes)
            },
        }
    }

    /// Makes the packet that carries `payload` on the reliable channel and
    /// keeps the payload for retransmission until it is acknowledged.
    pub fn send_reliable(&mut self, tick: u64, payload: Vec<u8>, now: u64) -> (r: Result<
        Vec<u8>,
        ChannelError,
    >)
        requires
            old(self).wf(),
        ensures
            final(self).wf(),
            final(self).id == old(self).id,
            final(self).unreliable_seq == old(self).unreliable_seq,
            final(self).receiver == old(self).receiver,
            final(self).sender.max_retries == old(self).sender.max_retries,
            final(self).sender.base_timeout == old(self).sender.base_timeout,
            final(self).sender.failed == old(self).sender.failed,
            match old(self).refusal(old(self).sender.next_seq, payload@) {
                Some(e) => r == Err::<Vec<u8>, ChannelError>(e) && final(self).sender == old(
                    self,
                ).sender,
                None => {
                    &&& r is Ok
                    &&& r->Ok_0@ == header_bytes(
                        PacketHeader {
                            connection: old(self).id,
                            channel: RELIABLE,
                            seq: old(self).sender.next_seq,
                            tick,
                            payload_len: payload@.len() as u32,
                        },
                    ) + payload@
                    &&& final(self).sender.next_seq == old(self).sender.next_seq + 1
                    &&& final(self).sender.outstanding@ == old(self).sender.outstanding@.push(
                        Outstanding {
                            seq: old(self).sender.next_seq,
                            attempts: 0,
                            deadline: capped(now + old(self).sender.base_timeout),
                        },
                    )
                    &&& final(self).sender.payloads@ == old(self).sender.payloads@.push(payload)
                },
            },
    {
        if self.sender.failed {
            return Err(ChannelError::ChannelTimeout);
        }
        if self.sender.next_seq == u64::MAX {
            return Err(ChannelError::SequenceExhausted);
        }
        match encode_packet(self.id, RELIABLE, self.sender.next_seq, tick, &payload) {
            None => Err(ChannelError::PayloadTooLarge),
            Some(bytes) => {
                let sent = self.sender.send(payload, now);
                Ok(bytes)
            },
        }
    }

    /// Makes the packet that sends a waiting reliable message once more: the
    /// sequence number and the payload are those of the first sending.
    pub fn retransmission(&self, seq: u64, tick: u64) -> (r: Option<Vec<u8>>)
        requires
            self.wf(),
        ensures
            r is Some <==> exists|i: int|
                0 <= i < self.sender.outstanding.len() && (#[trigger] self.sender.outstanding@[i]).seq
                    == seq && self.sender.payloads@[i]@.len() <= u32::MAX,
            r is Some ==> exists|i: int|
                0 <= i < self.sender.outstanding.len() && (#[trigger] self.sender.outstanding@[i]).seq
                    == seq && well_formed(r->0@) && header_of(r->0@).seq == seq && header_of(
                    r->0@,
                ).channel == RELIABLE && header_of(r->0@).connection == self.id && r->0@.skip(
                    HEADER_LEN as int,
                ) == self.sender.payloads@[i]@,
    {
        match self.sender.payload_of(seq) {
            None => None,
            Some(payload) => {
                let packet = encode_packet(self.id, RELIABLE, seq, tick, payload);
                proof {
                    let at = choose|i: int|
                        0 <= i < self.sender.outstanding.len() && (
                        #[trigger] self.sender.outstanding@[i]).seq == seq && *payload
                            == self.sender.payloads@[i];
                    assert forall|i: int|
                        0 <= i < self.sender.outstanding.len() && (
                        #[trigger] self.sender.outstanding@[i]).seq == seq implies i == at by {
                        if i < at {
                            assert(self.sender.outstanding@[i].seq < self.sender.outstanding@[at].seq);
                        } else if at < i {
                            assert(self.sender.outstanding@[at].seq < self.sender.outstanding@[i].seq);
                        }
                    }
                    if packet is Some {
                        crate::wire::lemma_header_round_trip(
                            PacketHeader {
                                connection: self.id,
                                channel: RELIABLE,
                                seq,
                                tick,
                                payload_len: payload@.len() as u32,
                            },
                            payload@,
                        );
                    }
                }
                packet
            },
        }
    }

    /// Takes in the bytes of a packet that arrived.
    ///
    /// Bytes that are no well-formed packet of this connection are rejected.
    /// A packet of the unreliable channel is handed on at once; what it
    /// carries is ordered by its tick where it is applied. A packet of the
    /// reliable channel goes through the reordering buffer.
    pub fn on_packet(&mut self, bytes: &Vec<u8>) -> (d: Delivery)
        requires
            old(self).wf(),
        ensures
            final(self).wf(),
            final(self).id == old(self).id,
            final(self).unreliable_seq == old(self).unreliable_seq,
            final(self).sender == old(self).sender,
            d is Rejected <==> !old(self).admits(bytes@),
            d is Rejected ==> final(self).receiver == old(self).receiver,
            d is Unreliable <==> old(self).admits(bytes@) && header_of(bytes@).channel
                == UNRELIABLE,
            d is Unreliable ==> final(self).receiver == old(self).receiver && d->Unreliable_0
                == header_of(bytes@) && d->Unreliable_1@ == bytes@.skip(HEADER_LEN as int),
            d is Reliable ==> exists|m: Message|
                m.seq == header_of(bytes@).seq && m.payload@ == bytes@.skip(HEADER_LEN as int)
                    && #[trigger] accepted(
                    old(self).receiver,
                    final(self).receiver,
                    m,
                    d->Reliable_0@,
                ),
    {
        match decode_packet(bytes) {
            None => Delivery::Rejected,
            Some(parts) => {
                let header: PacketHeader = parts.0;
                let payload: Vec<u8> = parts.1;
                if header.connection != self.id {
                    Delivery::Rejected
                } else if header.channel == UNRELIABLE {
                    Delivery::Unreliable(header, payload)
                } else {
                    let m = Message { seq: header.seq, payload };
                    let ghost arrived = m;
                    let delivered: Vec<Message> = self.receiver.accept(m);
                    let d = Delivery::Reliable(delivered);
                    proof {
                        assert(accepted(
                            old(self).receiver,
                            self.receiver,
                            arrived,
                            d->Reliable_0@,
                        ));
                        assert(exists|m: Message|
                            m.seq == header_of(bytes@).seq && m.payload@ == bytes@.skip(
                                HEADER_LEN as int,
                            ) && #[trigger] accepted(
                                old(self).receiver,
                                self.receiver,
                                m,
                                d->Reliable_0@,
                            ));
                    }
                    d
                }
            },
        }
    }
}

} // verus!
