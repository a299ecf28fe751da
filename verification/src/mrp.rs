//! The Message Reliability Protocol state of one exchange.
//!
//! At most one reliable message is in flight per exchange: `retrans` tracks
//! it until the peer acknowledges its counter, retransmitting on a deadline
//! up to a retry budget. At most one acknowledgement is owed: `ack` holds
//! the peer's counter and the moment an idle timer would send it bare.
//! Standalone acks are themselves never sent reliably, so they are never
//! acknowledged in turn.

use vstd::prelude::*;

use crate::error::Error;
use crate::packet::OPCODE_MRP_STANDALONE_ACK;
use crate::packet::PROTO_ID_SECURE_CHANNEL;
use crate::packet::Packet;
use crate::packet::PlainHdr;
use crate::packet::ProtoHdr;

verus! {

/// How long an owed acknowledgement may wait before it goes out bare.
pub const MRP_STANDALONE_ACK_TIMEOUT_MS: u64 = 100;

/// The base retransmission interval of a reliable message.
pub const MRP_BASE_RETRY_INTERVAL_MS: u64 = 300;

/// How often a reliable message is retransmitted before the peer counts as
/// unreachable.
pub const MRP_MAX_RETRIES: u8 = 3;

/// A moment (milliseconds) far enough from the top of the range that the
/// MRP timers cannot overflow past it.
pub const MRP_MAX_NOW_MS: u64 = 0xFFFF_FFFF_FFFF_0000;

/// A reliable message in flight.
#[derive(Clone, Copy, Debug, PartialEq, Eq)]
pub struct RetransEntry {
    /// The counter it was (last) sent under; the peer's ack must name it.
    pub msg_ctr: u32,
    /// When to retransmit next.
    pub deadline: u64,
    /// How often it has been retransmitted already.
    pub retries: u8,
}

/// An acknowledgement owed to the peer.
#[derive(Clone, Copy, Debug, PartialEq, Eq)]
pub struct AckEntry {
    /// The peer's counter to acknowledge.
    pub msg_ctr: u32,
    /// When the idle timer sends it bare.
    pub ack_deadline: u64,
}

/// The reliability state of one exchange.
#[derive(Clone, Copy, Debug, PartialEq, Eq)]
pub struct ReliableMessage {
    pub retrans: Option<RetransEntry>,
    pub ack: Option<AckEntry>,
}

/// Whether [`ReliableMessage::recv`] accepts this header: an
/// acknowledgement must name the counter of the message in flight, if one
/// is.
pub open spec fn spec_mrp_recv_ok(m: ReliableMessage, proto: ProtoHdr, plain_ctr: u32) -> bool {
    proto.ack_ctr is Some && m.retrans is Some ==> proto.ack_ctr.unwrap()
        == m.retrans.unwrap().msg_ctr
}

/// The reliability state after [`ReliableMessage::recv`] accepts a header.
pub open spec fn spec_mrp_recv(
    m: ReliableMessage,
    proto: ProtoHdr,
    plain_ctr: u32,
    now: u64,
) -> ReliableMessage {
    ReliableMessage {
        retrans: if proto.ack_ctr is Some {
            None
        } else {
            m.retrans
        },
        ack: if proto.reliable {
            Some(
                AckEntry {
                    msg_ctr: plain_ctr,
                    ack_deadline: (now + MRP_STANDALONE_ACK_TIMEOUT_MS) as u64,
                },
            )
        } else {
            m.ack
        },
    }
}

/// Whether [`ReliableMessage::pre_send`] accepts sending: a reliable
/// message must still have retries left.
pub open spec fn spec_mrp_pre_send_ok(m: ReliableMessage, reliable: bool) -> bool {
    reliable && m.retrans is Some ==> m.retrans.unwrap().retries < MRP_MAX_RETRIES
}

/// The reliability state after [`ReliableMessage::pre_send`] stamps a
/// header.
pub open spec fn spec_mrp_pre_send(
    m: ReliableMessage,
    reliable: bool,
    plain_ctr: u32,
    now: u64,
) -> ReliableMessage {
    ReliableMessage {
        retrans: if reliable {
            Some(
                RetransEntry {
                    msg_ctr: plain_ctr,
                    deadline: (now + MRP_BASE_RETRY_INTERVAL_MS) as u64,
                    retries: (match m.retrans {
                        Some(e) => (e.retries + 1) as u8,
                        None => 0u8,
                    }),
                },
            )
        } else {
            m.retrans
        },
        ack: None,
    }
}

/// The acknowledgement counter [`ReliableMessage::pre_send`] embeds.
pub open spec fn spec_mrp_pre_send_ack(m: ReliableMessage) -> Option<u32> {
    match m.ack {
        Some(a) => Some(a.msg_ctr),
        None => None,
    }
}

impl ReliableMessage {
    /// Fresh state: nothing in flight, nothing owed.
    pub fn new() -> (r: ReliableMessage)
        ensures
            r == (ReliableMessage { retrans: None, ack: None }),
    {
        ReliableMessage { retrans: None, ack: None }
    }

    /// Accounts for a received protocol header: an acknowledgement clears
    /// the message in flight when it names its counter (one for another
    /// counter while a message is in flight is a protocol violation; one
    /// with nothing in flight is a stray retransmission and is ignored),
    /// and a reliable message leaves an acknowledgement owed.
    pub fn recv(&mut self, proto: &ProtoHdr, plain_ctr: u32, now: u64) -> (r: Result<(), Error>)
        requires
            now <= MRP_MAX_NOW_MS,
        ensures
            match r {
                Ok(()) => spec_mrp_recv_ok(*old(self), *proto, plain_ctr) && *final(self)
                    == spec_mrp_recv(*old(self), *proto, plain_ctr, now),
                Err(e) => e == Error::Invalid && *final(self) == *old(self) && !spec_mrp_recv_ok(
                    *old(self),
                    *proto,
                    plain_ctr,
                ),
            },
    {
        if let Some(ack_ctr) = proto.ack_ctr {
            match self.retrans {
                Some(entry) => {
                    if entry.msg_ctr != ack_ctr {
                        return Err(Error::Invalid);
                    }
                    self.retrans = None;
                },
                None => {
                    // a stray ack, e.g. for a message the peer saw twice
                },
            }
        }
        if proto.reliable {
            self.ack = Some(
                AckEntry { msg_ctr: plain_ctr, ack_deadline: now + MRP_STANDALONE_ACK_TIMEOUT_MS },
            );
        }
        Ok(())
    }

    /// Whether an owed acknowledgement's idle timer has elapsed.
    pub fn is_ack_ready(&self, now: u64) -> (r: bool)
        ensures
            r == (self.ack is Some && now >= self.ack.unwrap().ack_deadline),
    {
        match self.ack {
            Some(a) => now >= a.ack_deadline,
            None => false,
        }
    }

    /// Whether the message in flight is due for retransmission.
    pub fn is_retrans_due(&self, now: u64) -> (r: bool)
        ensures
            r == (self.retrans is Some && now >= self.retrans.unwrap().deadline
                && self.retrans.unwrap().retries < MRP_MAX_RETRIES),
    {
        match self.retrans {
            Some(e) => now >= e.deadline && e.retries < MRP_MAX_RETRIES,
            None => false,
        }
    }

    /// Whether the message in flight has used up its retries: the peer
    /// counts as unreachable and the exchange closes.
    pub fn is_exhausted(&self, now: u64) -> (r: bool)
        ensures
            r == (self.retrans is Some && now >= self.retrans.unwrap().deadline
                && self.retrans.unwrap().retries >= MRP_MAX_RETRIES),
    {
        match self.retrans {
            Some(e) => now >= e.deadline && e.retries >= MRP_MAX_RETRIES,
            None => false,
        }
    }

    /// Stamps an outgoing protocol header: embeds the owed acknowledgement
    /// if any, and for a reliable message records it in flight — fresh on a
    /// first send, or counting one more retry on a retransmission. A
    /// retransmission past the retry budget is refused.
    pub fn pre_send(&mut self, proto: &mut ProtoHdr, plain_ctr: u32, now: u64) -> (r: Result<
        (),
        Error,
    >)
        requires
            now <= MRP_MAX_NOW_MS,
        ensures
            match r {
                Ok(()) => spec_mrp_pre_send_ok(*old(self), old(proto).reliable) && *final(self)
                    == spec_mrp_pre_send(*old(self), old(proto).reliable, plain_ctr, now)
                    && *final(proto) == (ProtoHdr {
                    ack_ctr: spec_mrp_pre_send_ack(*old(self)),
                    ..*old(proto)
                }),
                Err(e) => e == Error::Invalid && *final(self) == *old(self) && *final(proto)
                    == *old(proto) && !spec_mrp_pre_send_ok(*old(self), old(proto).reliable),
            },
    {
        if proto.reliable {
            let retries: u8 = match self.retrans {
                Some(e) => {
                    if e.retries >= MRP_MAX_RETRIES {
                        return Err(Error::Invalid);
                    }
                    e.retries + 1
                },
                None => 0,
            };
            self.retrans = Some(
                RetransEntry { msg_ctr: plain_ctr, deadline: now + MRP_BASE_RETRY_INTERVAL_MS, retries },
            );
        }
        match self.ack {
            Some(a) => {
                proto.ack_ctr = Some(a.msg_ctr);
                self.ack = None;
            },
            None => {
                proto.ack_ctr = None;
            },
        }
        Ok(())
    }

    /// Shapes a bare standalone acknowledgement for this exchange into the
    /// buffer: Secure Channel protocol, the standalone-ack opcode, not
    /// reliable, no payload; the session stamps the plain header later and
    /// [`Self::pre_send`] embeds the owed counter.
    pub fn prepare_ack(exch_id: u16, tx: &mut Packet)
        ensures
            final(tx)@.proto == (ProtoHdr {
                exch_id,
                proto_id: PROTO_ID_SECURE_CHANNEL,
                proto_opcode: OPCODE_MRP_STANDALONE_ACK,
                initiator: false,
                reliable: false,
                ack_ctr: None,
            }),
            final(tx)@.plain == (PlainHdr { sess_id: 0, ctr: 0, src_nodeid: None, dst_nodeid: None }),
            final(tx)@.payload == Seq::<u8>::empty(),
            final(tx)@.peer == old(tx)@.peer,
    {
        tx.plain = PlainHdr { sess_id: 0, ctr: 0, src_nodeid: None, dst_nodeid: None };
        tx.proto = ProtoHdr {
            exch_id,
            proto_id: PROTO_ID_SECURE_CHANNEL,
            proto_opcode: OPCODE_MRP_STANDALONE_ACK,
            initiator: false,
            reliable: false,
            ack_ctr: None,
        };
        tx.payload.clear();
        proof {
            assert(final(tx)@.payload =~= Seq::<u8>::empty());
        }
    }
}

} // verus!
