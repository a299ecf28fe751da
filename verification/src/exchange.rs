//! Exchanges: one conversation with a peer, and its state machine.
//!
//! An exchange is named by its 16-bit id scoped to a session identity; its
//! role is fixed at creation, complementary to the first packet's initiator
//! flag. The state says what I/O the exchange owes or awaits; `Closed`
//! exchanges are purged by the engine. Rather than holding references into
//! handler-owned buffers, an exchange records the index of the buffer slot
//! its handler owns, and the engine resolves the slot in the partitioned
//! pool.

use vstd::prelude::*;

use crate::mrp::ReliableMessage;
use crate::packet::Address;
use crate::session::Session;

verus! {

/// Capacity of the exchange table, and the number of handler slots.
pub const MAX_EXCHANGES: usize = 8;

/// Which side of the conversation we are.
#[derive(Clone, Copy, Debug, PartialEq, Eq, Structural)]
pub enum Role {
    Initiator,
    Responder,
}

impl Role {
    /// The role complementary to a packet's initiator flag: whoever
    /// receives an initiator packet responds.
    pub fn complementary(is_initiator: bool) -> (r: Role)
        ensures
            r == (if is_initiator {
                Role::Responder
            } else {
                Role::Initiator
            }),
    {
        if is_initiator {
            Role::Responder
        } else {
            Role::Initiator
        }
    }
}

/// The session identity an exchange is scoped to.
#[derive(Clone, Copy, Debug, PartialEq, Eq)]
pub struct SessionId {
    pub id: u16,
    pub peer_addr: Address,
    pub peer_nodeid: Option<u64>,
    pub is_encrypted: bool,
}

impl SessionId {
    /// The identity of a session record.
    pub fn load(s: &Session) -> (r: SessionId)
        ensures
            r == (SessionId {
                id: s.id,
                peer_addr: s.peer_addr,
                peer_nodeid: s.peer_nodeid,
                is_encrypted: s.is_encrypted,
            }),
    {
        SessionId {
            id: s.id,
            peer_addr: s.peer_addr,
            peer_nodeid: s.peer_nodeid,
            is_encrypted: s.is_encrypted,
        }
    }

    pub fn eq(&self, other: &SessionId) -> (r: bool)
        ensures
            r == (*self == *other),
    {
        let nodeid_eq = match (self.peer_nodeid, other.peer_nodeid) {
            (None, None) => true,
            (Some(a), Some(b)) => a == b,
            _ => false,
        };
        self.id == other.id && self.peer_addr.ip == other.peer_addr.ip && self.peer_addr.port
            == other.peer_addr.port && nodeid_eq && self.is_encrypted == other.is_encrypted
    }
}

/// What uniquely names one conversation.
#[derive(Clone, Copy, Debug, PartialEq, Eq)]
pub struct ExchangeId {
    pub id: u16,
    pub session_id: SessionId,
}

impl ExchangeId {
    pub fn eq(&self, other: &ExchangeId) -> (r: bool)
        ensures
            r == (*self == *other),
    {
        self.id == other.id && self.session_id.eq(&other.session_id)
    }
}

/// Where one exchange stands.
///
/// `Construction` is the handoff window: a handler has taken the exchange
/// and waits for the inducing packet to land in its slot. `Acknowledge`
/// owes the peer a bare ack. `ExchangeSend` has a message in the slot's
/// egress buffer waiting to go out; `ExchangeRecv` has sent it and awaits
/// the peer's reply and/or its acknowledgement. `Complete` has a final
/// message waiting to go out; `CompleteAcknowledge` awaits only its
/// acknowledgement. `Closed` is done and will be purged.
#[derive(Clone, Copy, Debug, PartialEq, Eq)]
pub enum ExchangeState {
    Active,
    Construction,
    Acknowledge,
    ExchangeSend,
    ExchangeRecv { tx_acknowledged: bool },
    Complete,
    CompleteAcknowledge,
    Closed,
}

/// The per-exchange record: name, role, reliability state, state machine
/// state, the buffer slot of the handler that owns it (if one does), and a
/// pending wakeup for that handler.
#[derive(Clone, Copy, Debug)]
pub struct ExchangeCtx {
    pub id: ExchangeId,
    pub role: Role,
    pub mrp: ReliableMessage,
    pub state: ExchangeState,
    pub slot: Option<usize>,
    /// The handler's wakeup flag: what a `Notification` signal is in a
    /// cooperative embedding. The engine raises it; the embedding observes
    /// and clears it.
    pub notified: bool,
}

impl ExchangeCtx {
    pub open spec fn spec_is_closed(self) -> bool {
        self.state is Closed
    }

    pub fn is_closed(&self) -> (r: bool)
        ensures
            r == self.spec_is_closed(),
    {
        match self.state {
            ExchangeState::Closed => true,
            _ => false,
        }
    }
}

} // verus!
