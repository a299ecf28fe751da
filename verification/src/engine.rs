//! The exchange engine: inbound dispatch and outbound pull.
//!
//! The engine owns the exchange table, the session table and the
//! access-control list. An embedding feeds it received packets through
//! [`Matter::process_rx`] and drains outgoing ones through
//! [`Matter::pull_tx`]; handlers drive their exchange through the state
//! transitions ([`Matter::exchange_send`] and friends) and the engine moves
//! the packets between the partitioned buffer pool and the wire. All
//! wakeups are flags here — the per-exchange `notified`, the engine-wide
//! `send_notification` — which a cooperative embedding maps onto its
//! notification primitive.

use vstd::prelude::*;

use crate::acl::AclMgr;
use crate::error::Error;
use crate::exchange::ExchangeCtx;
use crate::exchange::ExchangeId;
use crate::exchange::ExchangeState;
use crate::exchange::MAX_EXCHANGES;
use crate::exchange::Role;
use crate::exchange::SessionId;
use crate::mrp::ReliableMessage;
use crate::packet::Packet;
use crate::packet::PacketView;
use crate::session::SessionMgr;

verus! {

/// The per-handler buffer pool: slot `i` holds the egress (tx), ingress
/// (rx) and auxiliary (sx) packet of handler `i`, so concurrent handlers
/// never alias a buffer.
#[derive(Debug)]
pub struct PacketBuffers {
    pub tx: Vec<Packet>,
    pub rx: Vec<Packet>,
    pub sx: Vec<Packet>,
}

impl PacketBuffers {
    /// One pool per handler slot.
    pub open spec fn wf(self) -> bool {
        &&& self.tx@.len() == MAX_EXCHANGES
        &&& self.rx@.len() == MAX_EXCHANGES
        &&& self.sx@.len() == MAX_EXCHANGES
    }

    /// A pool of empty packets, one triple per handler slot.
    pub fn new() -> (b: PacketBuffers)
        ensures
            b.wf(),
    {
        let mut tx: Vec<Packet> = Vec::new();
        let mut rx: Vec<Packet> = Vec::new();
        let mut sx: Vec<Packet> = Vec::new();
        let mut i: usize = 0;
        while i < MAX_EXCHANGES
            invariant
                tx@.len() == i && rx@.len() == i && sx@.len() == i,
                i <= MAX_EXCHANGES,
            decreases MAX_EXCHANGES - i,
        {
            tx.push(Packet::new());
            rx.push(Packet::new());
            sx.push(Packet::new());
            i = i + 1;
        }
        PacketBuffers { tx, rx, sx }
    }
}

/// Everything a piped run needs to own: the per-handler pool and the two
/// staging packets of the wire loops.
#[derive(Debug)]
pub struct RunBuffers {
    pub run_bufs: PacketBuffers,
    pub tx_buf: Packet,
    pub rx_buf: Packet,
}

impl RunBuffers {
    pub fn new() -> (b: RunBuffers)
        ensures
            b.run_bufs.wf(),
    {
        RunBuffers { run_bufs: PacketBuffers::new(), tx_buf: Packet::new(), rx_buf: Packet::new() }
    }
}

/// Index of the first exchange with this id, or the length if none has it.
pub open spec fn spec_exch_idx(s: Seq<ExchangeCtx>, id: ExchangeId) -> int
    decreases s.len(),
{
    if s.len() == 0 {
        0
    } else if s[0].id == id {
        0
    } else {
        1 + spec_exch_idx(s.drop_first(), id)
    }
}

pub proof fn lemma_exch_idx(s: Seq<ExchangeCtx>, id: ExchangeId)
    ensures
        0 <= spec_exch_idx(s, id) <= s.len(),
        spec_exch_idx(s, id) < s.len() ==> s[spec_exch_idx(s, id)].id == id,
        forall|j: int| 0 <= j < spec_exch_idx(s, id) ==> s[j].id != id,
    decreases s.len(),
{
    if s.len() > 0 && s[0].id != id {
        lemma_exch_idx(s.drop_first(), id);
        assert forall|j: int| 0 <= j < spec_exch_idx(s, id) implies s[j].id != id by {
            if j > 0 {
                assert(s.drop_first()[j - 1] == s[j]);
            }
        }
    }
}

/// The exchanges that survive a purge: everything not `Closed`, in order.
pub open spec fn spec_open_exchanges(s: Seq<ExchangeCtx>) -> Seq<ExchangeCtx> {
    s.filter(|e: ExchangeCtx| !e.spec_is_closed())
}

/// The exchange table's invariant: it fits its capacity, no two exchanges
/// share an id — one conversation, one record — and no two share a handler
/// slot, so no two handlers ever own the same buffers.
pub open spec fn spec_exchanges_wf(s: Seq<ExchangeCtx>) -> bool {
    &&& s.len() <= MAX_EXCHANGES
    &&& forall|i: int, j: int| 0 <= i < j < s.len() ==> s[i].id != s[j].id
    &&& forall|i: int|
        0 <= i < s.len() ==> ((#[trigger] s[i].slot) is Some ==> s[i].slot.unwrap()
            < MAX_EXCHANGES)
    &&& forall|i: int, j: int|
        0 <= i < j < s.len() ==> !(s[i].slot is Some && s[j].slot is Some && s[i].slot
            == s[j].slot)
}

/// The engine.
#[derive(Debug)]
pub struct Matter {
    pub exchanges: Vec<ExchangeCtx>,
    pub session_mgr: SessionMgr,
    pub acl_mgr: AclMgr,
    /// Raised when a peer may be waiting on our acknowledgement (a
    /// duplicate arrived): the embedding's send loop should run.
    pub send_notification: bool,
}

impl Matter {
    pub open spec fn wf(self) -> bool {
        spec_exchanges_wf(self.exchanges@)
    }

    /// A fresh engine: no exchanges, no sessions, everything denied.
    pub fn new() -> (m: Matter)
        ensures
            m.wf(),
            m.exchanges@ =~= Seq::<ExchangeCtx>::empty(),
            m.session_mgr@ =~= Seq::<crate::session::Session>::empty(),
            m.acl_mgr@ =~= Seq::<crate::acl::AclEntryView>::empty(),
            !m.send_notification,
    {
        Matter {
            exchanges: Vec::new(),
            session_mgr: SessionMgr::new(),
            acl_mgr: AclMgr::new(),
            send_notification: false,
        }
    }

    /// Drops every exchange and every session; the access-control list
    /// stays.
    pub fn reset_transport(&mut self)
        ensures
            final(self).wf(),
            final(self).exchanges@ =~= Seq::<ExchangeCtx>::empty(),
            final(self).session_mgr@ =~= Seq::<crate::session::Session>::empty(),
            final(self).acl_mgr == old(self).acl_mgr,
            final(self).send_notification == old(self).send_notification,
    {
        self.exchanges.clear();
        self.session_mgr.reset();
    }

    /// Removes every `Closed` exchange, keeping the others in order.
    pub fn purge(&mut self) -> (r: Result<(), Error>)
        requires
            old(self).wf(),
        ensures
            r is Ok,
            final(self).wf(),
            final(self).exchanges@ == spec_open_exchanges(old(self).exchanges@),
            final(self).session_mgr == old(self).session_mgr,
            final(self).acl_mgr == old(self).acl_mgr,
            final(self).send_notification == old(self).send_notification,
    {
        let ghost orig = self.exchanges@;
        let ghost pred = |e: ExchangeCtx| !e.spec_is_closed();
        let mut kept: Vec<ExchangeCtx> = Vec::new();
        let mut i: usize = 0;
        proof {
            reveal(Seq::filter);
            assert(orig.take(0).filter(pred) =~= Seq::<ExchangeCtx>::empty());
        }
        while i < self.exchanges.len()
            invariant
                i <= orig.len(),
                self.exchanges@ == orig,
                kept@ == orig.take(i as int).filter(pred),
                kept@.len() <= i,
                forall|k: int, j: int|
                    0 <= k < kept@.len() && i <= j < orig.len() ==> kept@[k].id != orig[j].id && !(
                    kept@[k].slot is Some && orig[j].slot is Some && kept@[k].slot == orig[j].slot),
                forall|k1: int, k2: int| 0 <= k1 < k2 < kept@.len() ==> kept@[k1].id != kept@[k2].id,
                forall|k1: int, k2: int|
                    0 <= k1 < k2 < kept@.len() ==> !(kept@[k1].slot is Some && kept@[k2].slot is Some
                        && kept@[k1].slot == kept@[k2].slot),
                forall|k: int|
                    0 <= k < kept@.len() ==> ((#[trigger] kept@[k].slot) is Some
                        ==> kept@[k].slot.unwrap() < MAX_EXCHANGES),
            decreases orig.len() - i,
        {
            let ghost prefix = orig.take(i as int);
            let ghost next = orig.take(i as int + 1);
            proof {
                assert(next.drop_last() =~= prefix);
                assert(next.last() == orig[i as int]);
                reveal(Seq::filter);
            }
            let e = self.exchanges[i];
            if !e.is_closed() {
                kept.push(e);
            }
            i = i + 1;
        }
        proof {
            assert(orig.take(orig.len() as int) =~= orig);
        }
        self.exchanges = kept;
        Ok(())
    }
}

/// Looks an exchange up by id, or creates it.
///
/// An existing exchange must be found under the same role; a missing one is
/// created — `Active`, fresh reliability state, no handler slot yet — only
/// when the packet allows it (its peer is the initiator) and the table has
/// room.
pub fn register(
    exchanges: &mut Vec<ExchangeCtx>,
    id: ExchangeId,
    role: Role,
    create_new: bool,
) -> (r: Result<(usize, bool), Error>)
    requires
        spec_exchanges_wf(old(exchanges)@),
    ensures
        spec_exchanges_wf(final(exchanges)@),
        match r {
            Ok((i, new)) => {
                &&& !new ==> final(exchanges)@ == old(exchanges)@ && i == spec_exch_idx(
                    old(exchanges)@,
                    id,
                ) && i < old(exchanges)@.len() && old(exchanges)@[i as int].id == id && old(exchanges)@[i as int].role == role
                &&& new ==> spec_exch_idx(old(exchanges)@, id) == old(exchanges)@.len()
                    && create_new && old(exchanges)@.len() < MAX_EXCHANGES && i == old(exchanges)@.len() && final(exchanges)@ == old(exchanges)@.push(
                    ExchangeCtx {
                        id,
                        role,
                        mrp: ReliableMessage { retrans: None, ack: None },
                        state: ExchangeState::Active,
                        slot: None,
                        notified: false,
                    },
                )
            },
            Err(Error::NoExchange) => final(exchanges)@ == old(exchanges)@ && ({
                ||| (spec_exch_idx(old(exchanges)@, id) < old(exchanges)@.len() && old(exchanges)@[spec_exch_idx(old(exchanges)@, id)].role != role)
                ||| (spec_exch_idx(old(exchanges)@, id) == old(exchanges)@.len() && !create_new)
            }),
            Err(Error::NoSpace) => final(exchanges)@ == old(exchanges)@ && spec_exch_idx(
                old(exchanges)@,
                id,
            ) == old(exchanges)@.len() && create_new && old(exchanges)@.len() >= MAX_EXCHANGES,
            Err(_) => false,
        },
{
    proof {
        lemma_exch_idx(old(exchanges)@, id);
    }
    let mut i: usize = 0;
    while i < exchanges.len()
        invariant
            i <= exchanges@.len(),
            exchanges@ == old(exchanges)@,
            forall|j: int| 0 <= j < i ==> exchanges@[j].id != id,
        decreases exchanges@.len() - i,
    {
        let found = exchanges[i].id.eq(&id);
        if found {
            let role_eq = match (exchanges[i].role, role) {
                (Role::Initiator, Role::Initiator) => true,
                (Role::Responder, Role::Responder) => true,
                _ => false,
            };
            if role_eq {
                return Ok((i, false));
            } else {
                return Err(Error::NoExchange);
            }
        }
        i = i + 1;
    }
    if !create_new {
        return Err(Error::NoExchange);
    }
    if exchanges.len() >= MAX_EXCHANGES {
        return Err(Error::NoSpace);
    }
    let i = exchanges.len();
    exchanges.push(
        ExchangeCtx {
            id,
            role,
            mrp: ReliableMessage::new(),
            state: ExchangeState::Active,
            slot: None,
            notified: false,
        },
    );
    proof {
        assert forall|a: int, b: int|
            0 <= a < b < final(exchanges)@.len() implies final(exchanges)@[a].id
            != final(exchanges)@[b].id by {
            if b == old(exchanges)@.len() {
                assert(final(exchanges)@[a] == old(exchanges)@[a]);
            }
        }
    }
    Ok((i, true))
}

} // verus!

verus! {

/// The exchange id a received packet names: its exchange number scoped to
/// the identity of the session it arrived on.
pub open spec fn spec_rx_exchange_id(rx: PacketView, sess: crate::session::Session) -> ExchangeId {
    ExchangeId {
        id: rx.proto.exch_id,
        session_id: SessionId {
            id: sess.id,
            peer_addr: sess.peer_addr,
            peer_nodeid: sess.peer_nodeid,
            is_encrypted: sess.is_encrypted,
        },
    }
}

impl Matter {
    /// The inbound bookkeeping under a received packet: finds the session,
    /// accounts for the counter (a replay fails with `Duplicate` and
    /// changes nothing), finds or creates the exchange, and runs its
    /// reliability bookkeeping. Returns the exchange's index and whether it
    /// was just created.
    pub fn post_recv(&mut self, rx: &Packet, now: u64) -> (r: Result<(usize, bool), Error>)
        requires
            old(self).wf(),
            now <= crate::mrp::MRP_MAX_NOW_MS,
        ensures
            final(self).wf(),
            final(self).acl_mgr == old(self).acl_mgr,
            final(self).send_notification == old(self).send_notification,
            ({
                let sessions = old(self).session_mgr@;
                let si = crate::session::spec_sess_idx(sessions, rx@.plain.sess_id, rx@.peer);
                let nondup = si < sessions.len() && rx@.plain.ctr > sessions[si].last_recv_ctr;
                let sess = sessions[si];
                let xid = spec_rx_exchange_id(rx@, sess);
                let exchanges = old(self).exchanges@;
                let i = spec_exch_idx(exchanges, xid);
                let role = if rx@.proto.initiator {
                    Role::Responder
                } else {
                    Role::Initiator
                };
                let sessions_booked = sessions.update(
                    si,
                    crate::session::Session { last_recv_ctr: rx@.plain.ctr, ..sess },
                );
                match r {
                    Ok((idx, new)) => {
                        &&& si < sessions.len()
                        &&& rx@.plain.ctr > sess.last_recv_ctr
                        &&& final(self).session_mgr@ == sessions_booked
                        &&& if new {
                            &&& i == exchanges.len()
                            &&& rx@.proto.initiator
                            &&& exchanges.len() < MAX_EXCHANGES
                            &&& idx == exchanges.len()
                            &&& final(self).exchanges@ == exchanges.push(
                                ExchangeCtx {
                                    id: xid,
                                    role: Role::Responder,
                                    mrp: crate::mrp::spec_mrp_recv(
                                        ReliableMessage { retrans: None, ack: None },
                                        rx@.proto,
                                        rx@.plain.ctr,
                                        now,
                                    ),
                                    state: ExchangeState::Active,
                                    slot: None,
                                    notified: false,
                                },
                            )
                        } else {
                            &&& idx == i
                            &&& idx < exchanges.len()
                            &&& exchanges[idx as int].id == xid
                            &&& exchanges[idx as int].role == role
                            &&& crate::mrp::spec_mrp_recv_ok(
                                exchanges[idx as int].mrp,
                                rx@.proto,
                                rx@.plain.ctr,
                            )
                            &&& final(self).exchanges@ == exchanges.update(
                                idx as int,
                                ExchangeCtx {
                                    mrp: crate::mrp::spec_mrp_recv(
                                        exchanges[idx as int].mrp,
                                        rx@.proto,
                                        rx@.plain.ctr,
                                        now,
                                    ),
                                    ..exchanges[idx as int]
                                },
                            )
                        }
                    },
                    Err(Error::NoSession) => final(self).session_mgr@ == sessions && final(self).exchanges@ == old(self).exchanges@ && si == sessions.len(),
                    Err(Error::Duplicate) => final(self).session_mgr@ == sessions && final(self).exchanges@ == old(self).exchanges@ && si < sessions.len() && rx@.plain.ctr
                        <= sessions[si].last_recv_ctr,
                    Err(Error::NoExchange) => nondup && final(self).exchanges@ == exchanges
                        && final(self).session_mgr@ == sessions_booked && ({
                        ||| (i < exchanges.len() && exchanges[i].role != role)
                        ||| (i == exchanges.len() && !rx@.proto.initiator)
                    }),
                    Err(Error::NoSpace) => nondup && final(self).exchanges@ == exchanges && final(self).session_mgr@ == sessions_booked && i == exchanges.len()
                        && rx@.proto.initiator && exchanges.len() >= MAX_EXCHANGES,
                    Err(Error::Invalid) => nondup && final(self).exchanges@ == exchanges && final(self).session_mgr@ == sessions_booked && i < exchanges.len()
                        && exchanges[i].role == role && !crate::mrp::spec_mrp_recv_ok(
                        exchanges[i].mrp,
                        rx@.proto,
                        rx@.plain.ctr,
                    ),
                }
            }),
    {
        let si = self.session_mgr.post_recv(rx.plain.sess_id, rx.peer)?;
        self.session_mgr.recv(si, rx.plain.ctr)?;
        let sess = self.session_mgr.session_at(si);
        let xid = ExchangeId { id: rx.proto.exch_id, session_id: SessionId::load(&sess) };
        proof {
            assert(xid == spec_rx_exchange_id(rx@, old(self).session_mgr@[si as int]));
        }
        let is_initiator = rx.proto.is_initiator();
        let (idx, new) = register(
            &mut self.exchanges,
            xid,
            Role::complementary(is_initiator),
            is_initiator,
        )?;
        let ctx = &mut self.exchanges[idx];
        match ctx.mrp.recv(&rx.proto, rx.plain.ctr, now) {
            Ok(()) => {},
            Err(e) => {
                // only an existing exchange's reliability state can refuse
                // (a fresh one has nothing in flight), and it refuses
                // without changing anything
                proof {
                    assert(!new);
                    assert(self.exchanges@ =~= old(self).exchanges@);
                }
                return Err(e);
            },
        }
        proof {
            if new {
                assert(final(self).exchanges@ =~= old(self).exchanges@.push(
                    ExchangeCtx {
                        id: xid,
                        role: Role::Responder,
                        mrp: crate::mrp::spec_mrp_recv(
                            ReliableMessage { retrans: None, ack: None },
                            rx@.proto,
                            rx@.plain.ctr,
                            now,
                        ),
                        state: ExchangeState::Active,
                        slot: None,
                        notified: false,
                    },
                ));
            } else {
                assert(final(self).exchanges@ =~= old(self).exchanges@.update(
                    idx as int,
                    ExchangeCtx {
                        mrp: crate::mrp::spec_mrp_recv(
                            old(self).exchanges@[idx as int].mrp,
                            rx@.proto,
                            rx@.plain.ctr,
                            now,
                        ),
                        ..old(self).exchanges@[idx as int]
                    },
                ));
            }
        }
        Ok((idx, new))
    }
}

} // verus!

verus! {

/// What a pure acknowledgement does to an exchange's state: it confirms a
/// sent message (`ExchangeRecv`) or finishes a completed one
/// (`CompleteAcknowledge`, waking the handler); in any other state it is a
/// protocol violation and there is no transition.
pub open spec fn spec_ack_transition(st: ExchangeState) -> Option<(ExchangeState, bool)> {
    match st {
        ExchangeState::ExchangeRecv { tx_acknowledged } => Some(
            (ExchangeState::ExchangeRecv { tx_acknowledged: true }, false),
        ),
        ExchangeState::CompleteAcknowledge => Some((ExchangeState::Closed, true)),
        _ => None,
    }
}

/// Whether a packet is a bare standalone acknowledgement.
pub open spec fn spec_is_standalone_ack(p: PacketView) -> bool {
    p.proto.proto_id == crate::packet::PROTO_ID_SECURE_CHANNEL && p.proto.proto_opcode
        == crate::packet::OPCODE_MRP_STANDALONE_ACK
}

impl Matter {
    /// Index of the exchange with this id, if the table has one.
    pub fn find_exchange(&self, id: &ExchangeId) -> (r: Option<usize>)
        ensures
            match r {
                Some(i) => i == spec_exch_idx(self.exchanges@, *id) && i < self.exchanges@.len()
                    && self.exchanges@[i as int].id == *id,
                None => spec_exch_idx(self.exchanges@, *id) == self.exchanges@.len(),
            },
    {
        proof {
            lemma_exch_idx(self.exchanges@, *id);
        }
        let mut i: usize = 0;
        while i < self.exchanges.len()
            invariant
                i <= self.exchanges@.len(),
                forall|j: int| 0 <= j < i ==> self.exchanges@[j].id != *id,
            decreases self.exchanges@.len() - i,
        {
            if self.exchanges[i].id.eq(id) {
                return Some(i);
            }
            i = i + 1;
        }
        None
    }

    /// The inbound path: purges closed exchanges, books the packet in
    /// (dropping replays with nothing but a send nudge), applies a carried
    /// acknowledgement, and either hands a new exchange out for
    /// construction, swallows a standalone ack, or delivers the packet into
    /// the receiving handler's slot and wakes it. A packet that no state
    /// expects closes its exchange and fails with `Invalid`; no failure
    /// disturbs any other exchange or any other handler's buffers.
    pub fn process_rx(&mut self, buffers: &mut PacketBuffers, src_rx: &Packet, now: u64) -> (r:
        Result<Option<ExchangeId>, Error>)
        requires
            old(self).wf(),
            old(buffers).wf(),
            now <= crate::mrp::MRP_MAX_NOW_MS,
        ensures
            final(self).wf(),
            final(buffers).wf(),
            final(self).acl_mgr == old(self).acl_mgr,
            final(buffers).tx@ == old(buffers).tx@,
            final(buffers).sx@ == old(buffers).sx@,
            ({
                let pex = spec_open_exchanges(old(self).exchanges@);
                let sessions = old(self).session_mgr@;
                let si = crate::session::spec_sess_idx(sessions, src_rx@.plain.sess_id, src_rx@.peer);
                let nondup = si < sessions.len() && src_rx@.plain.ctr > sessions[si].last_recv_ctr;
                let sess = sessions[si];
                let sessions_booked = sessions.update(
                    si,
                    crate::session::Session { last_recv_ctr: src_rx@.plain.ctr, ..sess },
                );
                let xid = spec_rx_exchange_id(src_rx@, sess);
                let i = spec_exch_idx(pex, xid);
                let found = i < pex.len();
                let role = if src_rx@.proto.initiator {
                    Role::Responder
                } else {
                    Role::Initiator
                };
                let m_ok = crate::mrp::spec_mrp_recv_ok(pex[i].mrp, src_rx@.proto, src_rx@.plain.ctr);
                let e1 = ExchangeCtx {
                    mrp: crate::mrp::spec_mrp_recv(
                        pex[i].mrp,
                        src_rx@.proto,
                        src_rx@.plain.ctr,
                        now,
                    ),
                    ..pex[i]
                };
                let e2 = if src_rx@.proto.spec_is_ack() {
                    ExchangeCtx {
                        state: spec_ack_transition(e1.state).unwrap().0,
                        notified: e1.notified || spec_ack_transition(e1.state).unwrap().1,
                        ..e1
                    }
                } else {
                    e1
                };
                let ack_ok = !src_rx@.proto.spec_is_ack() || spec_ack_transition(e1.state) is Some;
                let deliver_ok = e2.state matches ExchangeState::ExchangeRecv { .. } && e2.slot
                    is Some;
                match r {
                    Ok(Some(id)) => ({
                        // a new exchange: none with this id existed (after the
                        // purge), the peer initiated without acknowledging, and
                        // it joined the table fresh — `Active`, unbound, not
                        // notified
                        &&& nondup
                        &&& id == xid
                        &&& !found
                        &&& src_rx@.proto.initiator
                        &&& !src_rx@.proto.spec_is_ack()
                        &&& pex.len() < MAX_EXCHANGES
                        &&& final(self).exchanges@ == pex.push(
                            ExchangeCtx {
                                id: xid,
                                role: Role::Responder,
                                mrp: crate::mrp::spec_mrp_recv(
                                    ReliableMessage { retrans: None, ack: None },
                                    src_rx@.proto,
                                    src_rx@.plain.ctr,
                                    now,
                                ),
                                state: ExchangeState::Active,
                                slot: None,
                                notified: false,
                            },
                        )
                        &&& final(self).session_mgr@ == sessions_booked
                        &&& final(buffers).rx@ == old(buffers).rx@
                        &&& final(self).send_notification == old(self).send_notification
                    }),
                    Ok(None) => ({
                        ||| ({
                            // a replay: nothing changes but the purge and the
                            // send nudge — the peer may be waiting on our ack
                            &&& si < sessions.len()
                            &&& src_rx@.plain.ctr <= sess.last_recv_ctr
                            &&& final(self).exchanges@ == pex
                            &&& final(self).session_mgr@ == sessions
                            &&& final(self).send_notification
                            &&& final(buffers).rx@ == old(buffers).rx@
                        })
                        ||| ({
                            // an existing exchange took the packet: under the
                            // same role, its reliability state accepted it, a
                            // carried ack found a state that expects one, and a
                            // payload found the exchange awaiting it
                            &&& nondup
                            &&& found
                            &&& pex[i].role == role
                            &&& m_ok
                            &&& ack_ok
                            &&& final(self).session_mgr@ == sessions_booked
                            &&& final(self).exchanges@.len() == pex.len()
                            &&& forall|j: int|
                                0 <= j < pex.len() && j != i ==> final(self).exchanges@[j] == pex[j]
                            &&& final(self).send_notification == old(self).send_notification
                            &&& if spec_is_standalone_ack(src_rx@) {
                                // a bare ack: nothing to deliver
                                &&& final(self).exchanges@[i] == e2
                                &&& final(buffers).rx@ == old(buffers).rx@
                            } else {
                                // a request or reply: it lands in the owning
                                // handler's ingress slot and the handler wakes
                                let slot = e2.slot.unwrap();
                                &&& deliver_ok
                                &&& final(self).exchanges@[i] == ExchangeCtx {
                                    state: ExchangeState::Active,
                                    notified: true,
                                    ..e2
                                }
                                &&& final(buffers).rx@.len() == old(buffers).rx@.len()
                                &&& final(buffers).rx@[slot as int]@ == src_rx@
                                &&& forall|j: int|
                                    0 <= j < old(buffers).rx@.len() && j != slot ==> final(buffers).rx@[j] == old(buffers).rx@[j]
                            }
                        })
                    }),
                    Err(Error::NoSession) => ({
                        // no session matches the plain header: beyond the
                        // purge, nothing happened
                        &&& si == sessions.len()
                        &&& final(self).exchanges@ == pex
                        &&& final(self).session_mgr@ == sessions
                        &&& final(self).send_notification == old(self).send_notification
                        &&& final(buffers).rx@ == old(buffers).rx@
                    }),
                    Err(Error::NoExchange) => ({
                        // the exchange exists under the other role, or a
                        // non-initiator packet names an unknown exchange
                        &&& nondup
                        &&& ((found && pex[i].role != role) || (!found && !src_rx@.proto.initiator))
                        &&& final(self).exchanges@ == pex
                        &&& final(self).session_mgr@ == sessions_booked
                        &&& final(self).send_notification == old(self).send_notification
                        &&& final(buffers).rx@ == old(buffers).rx@
                    }),
                    Err(Error::NoSpace) => ({
                        // an initiator packet would open an exchange, but the
                        // table is full
                        &&& nondup
                        &&& !found
                        &&& src_rx@.proto.initiator
                        &&& pex.len() >= MAX_EXCHANGES
                        &&& final(self).exchanges@ == pex
                        &&& final(self).session_mgr@ == sessions_booked
                        &&& final(self).send_notification == old(self).send_notification
                        &&& final(buffers).rx@ == old(buffers).rx@
                    }),
                    Err(Error::Invalid) => ({
                        // a protocol violation: exactly the affected exchange
                        // closes (or never opens), the rest stands
                        &&& nondup
                        &&& final(self).session_mgr@ == sessions_booked
                        &&& final(self).send_notification == old(self).send_notification
                        &&& final(buffers).rx@ == old(buffers).rx@
                        &&& ({
                            // the peer acknowledged something we never sent
                            ||| (found && pex[i].role == role && !m_ok && final(self).exchanges@
                                == pex)
                            // a pure acknowledgement may not open an exchange
                            ||| (!found && src_rx@.proto.initiator && pex.len() < MAX_EXCHANGES
                                && src_rx@.proto.spec_is_ack() && final(self).exchanges@
                                == pex.push(
                                ExchangeCtx {
                                    id: xid,
                                    role: Role::Responder,
                                    mrp: crate::mrp::spec_mrp_recv(
                                        ReliableMessage { retrans: None, ack: None },
                                        src_rx@.proto,
                                        src_rx@.plain.ctr,
                                        now,
                                    ),
                                    state: ExchangeState::Closed,
                                    slot: None,
                                    notified: false,
                                },
                            ))
                            // an acknowledgement in a state that expects none
                            ||| (found && pex[i].role == role && m_ok && src_rx@.proto.spec_is_ack()
                                && spec_ack_transition(e1.state) is None && final(self).exchanges@
                                == pex.update(i, ExchangeCtx { state: ExchangeState::Closed, ..e1 }))
                            // a payload for an exchange that awaits none
                            ||| (found && pex[i].role == role && m_ok && ack_ok
                                && !spec_is_standalone_ack(src_rx@) && !deliver_ok && final(self).exchanges@ == pex.update(
                                i,
                                ExchangeCtx { state: ExchangeState::Closed, ..e2 },
                            ))
                        })
                    }),
                    Err(_) => false,
                }
            }),
    {
        self.purge()?;
        let (idx, new) = match self.post_recv(src_rx, now) {
            Ok(v) => v,
            Err(e) => {
                if let Error::Duplicate = e {
                    self.send_notification = true;
                    return Ok(None);
                }
                return Err(e);
            },
        };
        if src_rx.proto.is_ack() {
            if new {
                // an acknowledgement cannot open an exchange
                let ctx = &mut self.exchanges[idx];
                ctx.state = ExchangeState::Closed;
                return Err(Error::Invalid);
            }
            let ctx = &mut self.exchanges[idx];
            match ctx.state {
                ExchangeState::ExchangeRecv { tx_acknowledged: _ } => {
                    ctx.state = ExchangeState::ExchangeRecv { tx_acknowledged: true };
                },
                ExchangeState::CompleteAcknowledge => {
                    ctx.notified = true;
                    ctx.state = ExchangeState::Closed;
                },
                _ => {
                    // a protocol violation: the exchange closes, the engine
                    // and the other exchanges go on
                    ctx.state = ExchangeState::Closed;
                    return Err(Error::Invalid);
                },
            }
        }
        if new {
            let id = self.exchanges[idx].id;
            return Ok(Some(id));
        }
        let is_standalone = src_rx.get_proto_id() == crate::packet::PROTO_ID_SECURE_CHANNEL
            && src_rx.proto.proto_opcode == crate::packet::OPCODE_MRP_STANDALONE_ACK;
        if is_standalone {
            return Ok(None);
        }
        let ctx = &mut self.exchanges[idx];
        let deliverable = match ctx.state {
            ExchangeState::ExchangeRecv { .. } => true,
            _ => false,
        };
        if !deliverable {
            ctx.state = ExchangeState::Closed;
            return Err(Error::Invalid);
        }
        let slot_opt = ctx.slot;
        let Some(slot) = slot_opt else {
            ctx.state = ExchangeState::Closed;
            return Err(Error::Invalid);
        };
        ctx.state = ExchangeState::Active;
        ctx.notified = true;
        buffers.rx[slot].load(src_rx);
        Ok(None)
    }
}

} // verus!

verus! {

impl Matter {
    /// Binds a fresh exchange to the taking handler's buffer slot and moves
    /// it into `Construction`, where it waits for the inducing packet. The
    /// slot must be free: a slot in use by another exchange is refused, so
    /// no two handlers ever share buffers.
    pub fn bind_exchange(&mut self, id: &ExchangeId, slot: usize) -> (r: Result<(), Error>)
        requires
            old(self).wf(),
            slot < MAX_EXCHANGES,
        ensures
            final(self).wf(),
            final(self).session_mgr == old(self).session_mgr,
            final(self).acl_mgr == old(self).acl_mgr,
            final(self).send_notification == old(self).send_notification,
            ({
                let exchanges = old(self).exchanges@;
                let i = spec_exch_idx(exchanges, *id);
                match r {
                    Ok(()) => ({
                        &&& i < exchanges.len()
                        &&& exchanges[i].state is Active
                        &&& forall|j: int|
                            0 <= j < exchanges.len() && j != i ==> #[trigger] exchanges[j].slot
                                != Some(slot)
                        &&& final(self).exchanges@ == exchanges.update(
                            i,
                            ExchangeCtx {
                                state: ExchangeState::Construction,
                                slot: Some(slot),
                                ..exchanges[i]
                            },
                        )
                    }),
                    Err(Error::NoExchange) => final(self).exchanges@ == exchanges && i
                        == exchanges.len(),
                    Err(Error::Invalid) => final(self).exchanges@ == exchanges && i
                        < exchanges.len() && (!(exchanges[i].state is Active) || exists|j: int|
                        0 <= j < exchanges.len() && j != i && #[trigger] exchanges[j].slot == Some(slot)),
                    Err(_) => false,
                }
            }),
    {
        let Some(i) = self.find_exchange(id) else {
            return Err(Error::NoExchange);
        };
        let mut k: usize = 0;
        while k < self.exchanges.len()
            invariant
                k <= self.exchanges@.len(),
                self.exchanges@ == old(self).exchanges@,
                forall|j: int|
                    0 <= j < k && j != i ==> !(self.exchanges@[j].slot is Some
                        && self.exchanges@[j].slot.unwrap() == slot),
            decreases self.exchanges@.len() - k,
        {
            if k != i {
                let taken = match self.exchanges[k].slot {
                    Some(s) => s == slot,
                    None => false,
                };
                if taken {
                    proof {
                        assert(old(self).exchanges@[k as int].slot == Some(slot));
                    }
                    return Err(Error::Invalid);
                }
            }
            k = k + 1;
        }
        let ctx = &mut self.exchanges[i];
        let active = match ctx.state {
            ExchangeState::Active => true,
            _ => false,
        };
        if !active {
            return Err(Error::Invalid);
        }
        ctx.state = ExchangeState::Construction;
        ctx.slot = Some(slot);
        Ok(())
    }

    /// Finishes the handoff of a fresh exchange: copies the inducing packet
    /// into the bound handler's ingress slot, wakes the handler, and the
    /// exchange goes `Active`. Only an exchange standing in `Construction`
    /// with a bound slot can take it.
    pub fn complete_construction(
        &mut self,
        id: &ExchangeId,
        src_rx: &Packet,
        buffers: &mut PacketBuffers,
    ) -> (r: Result<(), Error>)
        requires
            old(self).wf(),
            old(buffers).wf(),
        ensures
            final(self).wf(),
            final(buffers).wf(),
            final(self).session_mgr == old(self).session_mgr,
            final(self).acl_mgr == old(self).acl_mgr,
            final(self).send_notification == old(self).send_notification,
            final(buffers).tx@ == old(buffers).tx@,
            final(buffers).sx@ == old(buffers).sx@,
            ({
                let exchanges = old(self).exchanges@;
                let i = spec_exch_idx(exchanges, *id);
                match r {
                    Ok(()) => ({
                        let slot = exchanges[i].slot.unwrap();
                        &&& i < exchanges.len()
                        &&& exchanges[i].state is Construction
                        &&& exchanges[i].slot is Some
                        &&& final(self).exchanges@ == exchanges.update(
                            i,
                            ExchangeCtx {
                                state: ExchangeState::Active,
                                notified: true,
                                ..exchanges[i]
                            },
                        )
                        &&& final(buffers).rx@.len() == old(buffers).rx@.len()
                        &&& final(buffers).rx@[slot as int]@ == src_rx@
                        &&& forall|j: int|
                            0 <= j < old(buffers).rx@.len() && j != slot ==> final(buffers).rx@[j]
                                == old(buffers).rx@[j]
                    }),
                    Err(Error::NoExchange) => final(self).exchanges@ == exchanges && final(buffers).rx@ == old(buffers).rx@ && i == exchanges.len(),
                    Err(Error::Invalid) => final(self).exchanges@ == exchanges && final(buffers).rx@ == old(buffers).rx@ && i < exchanges.len() && !(exchanges[i].state
                        is Construction && exchanges[i].slot is Some),
                    Err(_) => false,
                }
            }),
    {
        let Some(i) = self.find_exchange(id) else {
            return Err(Error::NoExchange);
        };
        let ctx = &mut self.exchanges[i];
        let constructing = match ctx.state {
            ExchangeState::Construction => true,
            _ => false,
        };
        if !constructing {
            return Err(Error::Invalid);
        }
        let Some(slot) = ctx.slot else {
            return Err(Error::Invalid);
        };
        ctx.state = ExchangeState::Active;
        ctx.notified = true;
        buffers.rx[slot].load(src_rx);
        Ok(())
    }

    /// The handler has a message in its egress slot and will await a reply:
    /// `Active` moves to `ExchangeSend`; the pull loop picks it up.
    pub fn exchange_send(&mut self, id: &ExchangeId) -> (r: Result<(), Error>)
        requires
            old(self).wf(),
        ensures
            final(self).wf(),
            final(self).session_mgr == old(self).session_mgr,
            final(self).acl_mgr == old(self).acl_mgr,
            final(self).send_notification == old(self).send_notification,
            ({
                let exchanges = old(self).exchanges@;
                let i = spec_exch_idx(exchanges, *id);
                match r {
                    Ok(()) => i < exchanges.len() && exchanges[i].state is Active
                        && exchanges[i].slot is Some && final(self).exchanges@ == exchanges.update(
                        i,
                        ExchangeCtx { state: ExchangeState::ExchangeSend, ..exchanges[i] },
                    ),
                    Err(Error::NoExchange) => final(self).exchanges@ == exchanges && i
                        == exchanges.len(),
                    Err(Error::Invalid) => final(self).exchanges@ == exchanges && i
                        < exchanges.len() && !(exchanges[i].state is Active && exchanges[i].slot
                        is Some),
                    Err(_) => false,
                }
            }),
    {
        let Some(i) = self.find_exchange(id) else {
            return Err(Error::NoExchange);
        };
        let ctx = &mut self.exchanges[i];
        let ready = match (ctx.state, ctx.slot) {
            (ExchangeState::Active, Some(_)) => true,
            _ => false,
        };
        if !ready {
            return Err(Error::Invalid);
        }
        ctx.state = ExchangeState::ExchangeSend;
        Ok(())
    }

    /// The handler has a final message in its egress slot: `Active` moves
    /// to `Complete`; after it goes out only its acknowledgement is awaited.
    pub fn exchange_complete(&mut self, id: &ExchangeId) -> (r: Result<(), Error>)
        requires
            old(self).wf(),
        ensures
            final(self).wf(),
            final(self).session_mgr == old(self).session_mgr,
            final(self).acl_mgr == old(self).acl_mgr,
            final(self).send_notification == old(self).send_notification,
            ({
                let exchanges = old(self).exchanges@;
                let i = spec_exch_idx(exchanges, *id);
                match r {
                    Ok(()) => i < exchanges.len() && exchanges[i].state is Active
                        && exchanges[i].slot is Some && final(self).exchanges@ == exchanges.update(
                        i,
                        ExchangeCtx { state: ExchangeState::Complete, ..exchanges[i] },
                    ),
                    Err(Error::NoExchange) => final(self).exchanges@ == exchanges && i
                        == exchanges.len(),
                    Err(Error::Invalid) => final(self).exchanges@ == exchanges && i
                        < exchanges.len() && !(exchanges[i].state is Active && exchanges[i].slot
                        is Some),
                    Err(_) => false,
                }
            }),
    {
        let Some(i) = self.find_exchange(id) else {
            return Err(Error::NoExchange);
        };
        let ctx = &mut self.exchanges[i];
        let ready = match (ctx.state, ctx.slot) {
            (ExchangeState::Active, Some(_)) => true,
            _ => false,
        };
        if !ready {
            return Err(Error::Invalid);
        }
        ctx.state = ExchangeState::Complete;
        Ok(())
    }

    /// The handler owes the peer a bare acknowledgement: `Active` moves to
    /// `Acknowledge`; the pull loop sends it and wakes the handler.
    pub fn exchange_acknowledge(&mut self, id: &ExchangeId) -> (r: Result<(), Error>)
        requires
            old(self).wf(),
        ensures
            final(self).wf(),
            final(self).session_mgr == old(self).session_mgr,
            final(self).acl_mgr == old(self).acl_mgr,
            final(self).send_notification == old(self).send_notification,
            ({
                let exchanges = old(self).exchanges@;
                let i = spec_exch_idx(exchanges, *id);
                match r {
                    Ok(()) => i < exchanges.len() && exchanges[i].state is Active && final(self).exchanges@ == exchanges.update(
                        i,
                        ExchangeCtx { state: ExchangeState::Acknowledge, ..exchanges[i] },
                    ),
                    Err(Error::NoExchange) => final(self).exchanges@ == exchanges && i
                        == exchanges.len(),
                    Err(Error::Invalid) => final(self).exchanges@ == exchanges && i
                        < exchanges.len() && !(exchanges[i].state is Active),
                    Err(_) => false,
                }
            }),
    {
        let Some(i) = self.find_exchange(id) else {
            return Err(Error::NoExchange);
        };
        let ctx = &mut self.exchanges[i];
        let ready = match ctx.state {
            ExchangeState::Active => true,
            _ => false,
        };
        if !ready {
            return Err(Error::Invalid);
        }
        ctx.state = ExchangeState::Acknowledge;
        Ok(())
    }

    /// The handler is done with its exchange (normally or on an error): the
    /// exchange closes and the next purge removes it.
    pub fn close_exchange(&mut self, id: &ExchangeId) -> (r: Result<(), Error>)
        requires
            old(self).wf(),
        ensures
            final(self).wf(),
            final(self).session_mgr == old(self).session_mgr,
            final(self).acl_mgr == old(self).acl_mgr,
            final(self).send_notification == old(self).send_notification,
            ({
                let exchanges = old(self).exchanges@;
                let i = spec_exch_idx(exchanges, *id);
                match r {
                    Ok(()) => i < exchanges.len() && final(self).exchanges@ == exchanges.update(
                        i,
                        ExchangeCtx { state: ExchangeState::Closed, ..exchanges[i] },
                    ),
                    Err(e) => final(self).exchanges@ == exchanges && e == Error::NoExchange && i
                        == exchanges.len(),
                }
            }),
    {
        let Some(i) = self.find_exchange(id) else {
            return Err(Error::NoExchange);
        };
        let ctx = &mut self.exchanges[i];
        ctx.state = ExchangeState::Closed;
        Ok(())
    }

    /// Observes and clears an exchange's pending wakeup: what awaiting the
    /// per-exchange notification is in a cooperative embedding.
    pub fn take_notification(&mut self, id: &ExchangeId) -> (r: bool)
        requires
            old(self).wf(),
        ensures
            final(self).wf(),
            final(self).session_mgr == old(self).session_mgr,
            final(self).acl_mgr == old(self).acl_mgr,
            final(self).send_notification == old(self).send_notification,
            ({
                let exchanges = old(self).exchanges@;
                let i = spec_exch_idx(exchanges, *id);
                if i < exchanges.len() {
                    r == exchanges[i].notified && final(self).exchanges@ == exchanges.update(
                        i,
                        ExchangeCtx { notified: false, ..exchanges[i] },
                    )
                } else {
                    !r && final(self).exchanges@ == exchanges
                }
            }),
    {
        let Some(i) = self.find_exchange(id) else {
            return false;
        };
        let ctx = &mut self.exchanges[i];
        let r = ctx.notified;
        ctx.notified = false;
        r
    }

    /// Observes and clears the engine-wide send nudge.
    pub fn take_send_notification(&mut self) -> (r: bool)
        requires
            old(self).wf(),
        ensures
            final(self).wf(),
            r == old(self).send_notification,
            !final(self).send_notification,
            final(self).exchanges@ == old(self).exchanges@,
            final(self).session_mgr == old(self).session_mgr,
            final(self).acl_mgr == old(self).acl_mgr,
    {
        let r = self.send_notification;
        self.send_notification = false;
        r
    }
}

} // verus!

verus! {

/// Whether the pull loop would act on this exchange now: it has a message
/// or a bare ack to send, an owed acknowledgement whose idle timer elapsed,
/// or a reliable message due for retransmission (or out of retries).
pub open spec fn spec_pullable(e: ExchangeCtx, now: u64) -> bool {
    ||| e.state is Acknowledge
    ||| e.state is ExchangeSend
    ||| e.state is Complete
    ||| (e.mrp.ack is Some && now >= e.mrp.ack.unwrap().ack_deadline)
    ||| ((e.state == (ExchangeState::ExchangeRecv { tx_acknowledged: false }) || e.state
        is CompleteAcknowledge) && e.mrp.retrans is Some && now >= e.mrp.retrans.unwrap().deadline)
}

/// Index of the first exchange the pull loop would act on, or the length.
pub open spec fn spec_pull_idx(s: Seq<ExchangeCtx>, now: u64) -> int
    decreases s.len(),
{
    if s.len() == 0 {
        0
    } else if spec_pullable(s[0], now) {
        0
    } else {
        1 + spec_pull_idx(s.drop_first(), now)
    }
}

pub proof fn lemma_pull_idx(s: Seq<ExchangeCtx>, now: u64)
    ensures
        0 <= spec_pull_idx(s, now) <= s.len(),
        spec_pull_idx(s, now) < s.len() ==> spec_pullable(s[spec_pull_idx(s, now)], now),
        forall|j: int| 0 <= j < spec_pull_idx(s, now) ==> !spec_pullable(s[j], now),
    decreases s.len(),
{
    if s.len() > 0 && !spec_pullable(s[0], now) {
        lemma_pull_idx(s.drop_first(), now);
        assert forall|j: int| 0 <= j < spec_pull_idx(s, now) implies !spec_pullable(s[j], now) by {
            if j > 0 {
                assert(s.drop_first()[j - 1] == s[j]);
            }
        }
    }
}

/// The packet as the stamping path sends it: addressed to the exchange's
/// peer, the plain header carrying the session's outgoing id and counter,
/// the protocol header carrying the exchange id, our role's initiator bit
/// and the owed acknowledgement; opcode, protocol, reliability and payload
/// are the message's own.
pub open spec fn spec_stamped(
    base: PacketView,
    e: ExchangeCtx,
    sess: crate::session::Session,
) -> PacketView {
    PacketView {
        peer: e.id.session_id.peer_addr,
        plain: crate::packet::PlainHdr {
            sess_id: sess.peer_sess_id,
            ctr: sess.next_send_ctr,
            ..base.plain
        },
        proto: crate::packet::ProtoHdr {
            exch_id: e.id.id,
            initiator: e.role is Initiator,
            ack_ctr: crate::mrp::spec_mrp_pre_send_ack(e.mrp),
            ..base.proto
        },
        payload: base.payload,
    }
}

/// The bare standalone acknowledgement for an exchange, before stamping.
pub open spec fn spec_bare_ack(exch_id: u16, peer: crate::packet::Address) -> PacketView {
    PacketView {
        peer,
        plain: crate::packet::PlainHdr { sess_id: 0, ctr: 0, src_nodeid: None, dst_nodeid: None },
        proto: crate::packet::ProtoHdr {
            exch_id,
            proto_id: crate::packet::PROTO_ID_SECURE_CHANNEL,
            proto_opcode: crate::packet::OPCODE_MRP_STANDALONE_ACK,
            initiator: false,
            reliable: false,
            ack_ctr: None,
        },
        payload: Seq::<u8>::empty(),
    }
}

impl Matter {
    /// Stamps an outgoing packet for the exchange at `idx`: looks the
    /// session up by the exchange's identity, writes the exchange id and
    /// our initiator bit, lets the session stamp its id and counter, and
    /// lets the reliability layer embed the owed acknowledgement and track
    /// a reliable message in flight.
    pub fn pre_send(&mut self, idx: usize, tx: &mut Packet, now: u64) -> (r: Result<(), Error>)
        requires
            old(self).wf(),
            idx < old(self).exchanges@.len(),
            now <= crate::mrp::MRP_MAX_NOW_MS,
        ensures
            final(self).wf(),
            final(self).acl_mgr == old(self).acl_mgr,
            final(self).send_notification == old(self).send_notification,
            ({
                let e = old(self).exchanges@[idx as int];
                let sid = e.id.session_id;
                let sessions = old(self).session_mgr@;
                let si = crate::session::spec_sess_get_idx(
                    sessions,
                    sid.id,
                    sid.peer_addr,
                    sid.peer_nodeid,
                    sid.is_encrypted,
                );
                match r {
                    Ok(()) => ({
                        &&& si < sessions.len()
                        &&& final(tx)@ == spec_stamped(old(tx)@, e, sessions[si])
                        &&& final(self).session_mgr@ == sessions.update(
                            si,
                            crate::session::Session {
                                next_send_ctr: crate::dm::spec_wrap_inc(
                                    sessions[si].next_send_ctr,
                                ),
                                ..sessions[si]
                            },
                        )
                        &&& final(self).exchanges@ == old(self).exchanges@.update(
                            idx as int,
                            ExchangeCtx {
                                mrp: crate::mrp::spec_mrp_pre_send(
                                    e.mrp,
                                    old(tx)@.proto.reliable,
                                    sessions[si].next_send_ctr,
                                    now,
                                ),
                                ..e
                            },
                        )
                        &&& crate::mrp::spec_mrp_pre_send_ok(e.mrp, old(tx)@.proto.reliable)
                    }),
                    Err(Error::NoSession) => si == sessions.len() && final(self).exchanges@ == old(self).exchanges@ && final(self).session_mgr@ == sessions && final(tx)@ == old(tx)@,
                    Err(Error::Invalid) => si < sessions.len() && !crate::mrp::spec_mrp_pre_send_ok(
                        e.mrp,
                        old(tx)@.proto.reliable,
                    ) && final(self).exchanges@ == old(self).exchanges@ && final(self).session_mgr@
                        == sessions && final(tx)@ == old(tx)@,
                    Err(_) => false,
                }
            }),
    {
        let e = self.exchanges[idx];
        let sid = e.id.session_id;
        let Some(si) = self.session_mgr.get(
            sid.id,
            sid.peer_addr,
            sid.peer_nodeid,
            sid.is_encrypted,
        ) else {
            return Err(Error::NoSession);
        };
        // refuse a reliable send past the retry budget before touching
        // anything
        if tx.proto.reliable {
            if let Some(entry) = e.mrp.retrans {
                if entry.retries >= crate::mrp::MRP_MAX_RETRIES {
                    return Err(Error::Invalid);
                }
            }
        }
        tx.peer = sid.peer_addr;
        tx.proto.exch_id = e.id.id;
        tx.proto.initiator = match e.role {
            Role::Initiator => true,
            Role::Responder => false,
        };
        let (sess_id, ctr) = self.session_mgr.pre_send(si);
        tx.plain.sess_id = sess_id;
        tx.plain.ctr = ctr;
        let ctx = &mut self.exchanges[idx];
        match ctx.mrp.pre_send(&mut tx.proto, ctr, now) {
            Ok(()) => {},
            Err(_) => {
                // the retry budget was checked above, so the reliability
                // layer cannot refuse
                proof {
                    assert(false);
                }
                return Err(Error::Invalid);
            },
        }
        proof {
            assert(final(tx)@ =~= spec_stamped(
                old(tx)@,
                e,
                old(self).session_mgr@[si as int],
            ));
        }
        Ok(())
    }


    /// Index of the first exchange the pull loop would act on.
    fn find_pullable(&self, now: u64) -> (r: Option<usize>)
        ensures
            match r {
                Some(i) => i == spec_pull_idx(self.exchanges@, now) && i < self.exchanges@.len()
                    && spec_pullable(self.exchanges@[i as int], now),
                None => spec_pull_idx(self.exchanges@, now) == self.exchanges@.len(),
            },
    {
        proof {
            lemma_pull_idx(self.exchanges@, now);
        }
        let mut k: usize = 0;
        while k < self.exchanges.len()
            invariant
                k <= self.exchanges@.len(),
                forall|j: int| 0 <= j < k ==> !spec_pullable(self.exchanges@[j], now),
            decreases self.exchanges@.len() - k,
        {
            let e = &self.exchanges[k];
            let pullable = match e.state {
                ExchangeState::Acknowledge => true,
                ExchangeState::ExchangeSend => true,
                ExchangeState::Complete => true,
                ExchangeState::ExchangeRecv { tx_acknowledged: false } => e.mrp.is_retrans_due(now)
                    || e.mrp.is_exhausted(now) || e.mrp.is_ack_ready(now),
                ExchangeState::CompleteAcknowledge => e.mrp.is_retrans_due(now)
                    || e.mrp.is_exhausted(now) || e.mrp.is_ack_ready(now),
                _ => e.mrp.is_ack_ready(now),
            };
            if pullable {
                return Some(k);
            }
            k = k + 1;
        }
        None
    }

    /// The outbound path: purges closed exchanges, then acts on the first
    /// exchange that owes the wire something. A pending message moves out
    /// of its slot into `dest_tx` and the state advances (`ExchangeSend` to
    /// `ExchangeRecv`, `Complete` to `CompleteAcknowledge`); an owed or
    /// requested acknowledgement goes out bare; a reliable message due
    /// again is retransmitted, and one out of retries closes its exchange
    /// instead (the peer is unreachable). Returns whether `dest_tx` now
    /// holds a packet to send.
    pub fn pull_tx(&mut self, buffers: &PacketBuffers, dest_tx: &mut Packet, now: u64) -> (r:
        Result<bool, Error>)
        requires
            old(self).wf(),
            buffers.wf(),
            now <= crate::mrp::MRP_MAX_NOW_MS,
        ensures
            final(self).wf(),
            final(self).acl_mgr == old(self).acl_mgr,
            final(self).send_notification == old(self).send_notification,
            ({
                let pex = spec_open_exchanges(old(self).exchanges@);
                let sessions = old(self).session_mgr@;
                let i = spec_pull_idx(pex, now);
                let e = pex[i];
                let sid = e.id.session_id;
                let si = crate::session::spec_sess_get_idx(
                    sessions,
                    sid.id,
                    sid.peer_addr,
                    sid.peer_nodeid,
                    sid.is_encrypted,
                );
                let exhausted = i < pex.len() && (e.state == (ExchangeState::ExchangeRecv {
                    tx_acknowledged: false,
                }) || e.state is CompleteAcknowledge) && e.mrp.retrans is Some && now
                    >= e.mrp.retrans.unwrap().deadline && e.mrp.retrans.unwrap().retries
                    >= crate::mrp::MRP_MAX_RETRIES;
                let retransmitting = (e.state == (ExchangeState::ExchangeRecv {
                    tx_acknowledged: false,
                }) || e.state is CompleteAcknowledge) && e.mrp.retrans is Some && now
                    >= e.mrp.retrans.unwrap().deadline && e.mrp.retrans.unwrap().retries
                    < crate::mrp::MRP_MAX_RETRIES;
                let from_slot = e.state is ExchangeSend || e.state is Complete || retransmitting;
                let base = if from_slot {
                    buffers.tx@[e.slot.unwrap() as int]@
                } else {
                    spec_bare_ack(e.id.id, old(dest_tx)@.peer)
                };
                let next_state = match e.state {
                    ExchangeState::Acknowledge => ExchangeState::Active,
                    ExchangeState::ExchangeSend => ExchangeState::ExchangeRecv {
                        tx_acknowledged: false,
                    },
                    ExchangeState::Complete => ExchangeState::CompleteAcknowledge,
                    st => st,
                };
                let advanced = ExchangeCtx {
                    state: next_state,
                    notified: e.notified || e.state is Acknowledge,
                    ..e
                };
                match r {
                    Ok(true) => ({
                        // the first pullable exchange was serviced: its message
                        // (or a bare ack) stands stamped in `dest_tx`
                        &&& i < pex.len()
                        &&& spec_pullable(e, now)
                        &&& !exhausted
                        &&& (from_slot ==> e.slot is Some)
                        &&& si < sessions.len()
                        &&& crate::mrp::spec_mrp_pre_send_ok(e.mrp, base.proto.reliable)
                        &&& final(dest_tx)@ == spec_stamped(base, e, sessions[si])
                        &&& final(self).session_mgr@ == sessions.update(
                            si,
                            crate::session::Session {
                                next_send_ctr: crate::dm::spec_wrap_inc(
                                    sessions[si].next_send_ctr,
                                ),
                                ..sessions[si]
                            },
                        )
                        &&& final(self).exchanges@.len() == pex.len()
                        &&& forall|j: int| 0 <= j < pex.len() && j != i ==> final(self).exchanges@[j] == pex[j]
                        &&& final(self).exchanges@[i] == ExchangeCtx {
                            mrp: crate::mrp::spec_mrp_pre_send(
                                e.mrp,
                                base.proto.reliable,
                                sessions[si].next_send_ctr,
                                now,
                            ),
                            ..advanced
                        }
                    }),
                    Ok(false) => ({
                        &&& final(self).session_mgr@ == sessions
                        &&& final(dest_tx)@ == old(dest_tx)@
                        &&& ({
                            // nothing owes the wire anything
                            ||| (i == pex.len() && final(self).exchanges@ == pex)
                            // the due message is out of retries: its exchange
                            // closes and its handler wakes, nothing is sent
                            ||| (exhausted && final(self).exchanges@ == pex.update(
                                i,
                                ExchangeCtx {
                                    state: ExchangeState::Closed,
                                    notified: true,
                                    ..e
                                },
                            ))
                        })
                    }),
                    Err(Error::NoSession) => ({
                        // the exchange's session is gone: the packet stands
                        // prepared but unstamped, nothing else moved
                        &&& i < pex.len()
                        &&& !exhausted
                        &&& (from_slot ==> e.slot is Some)
                        &&& si == sessions.len()
                        &&& final(self).session_mgr@ == sessions
                        &&& final(dest_tx)@ == base
                        &&& final(self).exchanges@ == pex.update(i, advanced)
                    }),
                    Err(Error::Invalid) => ({
                        &&& i < pex.len()
                        &&& !exhausted
                        &&& final(self).session_mgr@ == sessions
                        &&& ({
                            // a message to send but no bound slot to take it
                            // from: the exchange closes
                            ||| (from_slot && e.slot is None && final(dest_tx)@ == old(dest_tx)@
                                && final(self).exchanges@ == pex.update(
                                i,
                                ExchangeCtx { state: ExchangeState::Closed, ..e },
                            ))
                            // a reliable message queued past its retry budget
                            ||| ((from_slot ==> e.slot is Some) && si < sessions.len()
                                && !crate::mrp::spec_mrp_pre_send_ok(e.mrp, base.proto.reliable)
                                && final(dest_tx)@ == base && final(self).exchanges@ == pex.update(
                                i,
                                advanced,
                            ))
                        })
                    }),
                    Err(_) => false,
                }
            }),
    {
        self.purge()?;
        let found = self.find_pullable(now);
        let Some(i) = found else {
            return Ok(false);
        };
        let e = self.exchanges[i];
        match e.state {
            ExchangeState::Acknowledge => {
                ReliableMessage::prepare_ack(e.id.id, dest_tx);
                let ctx = &mut self.exchanges[i];
                ctx.state = ExchangeState::Active;
                ctx.notified = true;
                self.pre_send(i, dest_tx, now)?;
                Ok(true)
            },
            ExchangeState::ExchangeSend => {
                let Some(slot) = e.slot else {
                    let ctx = &mut self.exchanges[i];
                    ctx.state = ExchangeState::Closed;
                    return Err(Error::Invalid);
                };
                dest_tx.load(&buffers.tx[slot]);
                let ctx = &mut self.exchanges[i];
                ctx.state = ExchangeState::ExchangeRecv { tx_acknowledged: false };
                self.pre_send(i, dest_tx, now)?;
                Ok(true)
            },
            ExchangeState::Complete => {
                let Some(slot) = e.slot else {
                    let ctx = &mut self.exchanges[i];
                    ctx.state = ExchangeState::Closed;
                    return Err(Error::Invalid);
                };
                dest_tx.load(&buffers.tx[slot]);
                let ctx = &mut self.exchanges[i];
                ctx.state = ExchangeState::CompleteAcknowledge;
                self.pre_send(i, dest_tx, now)?;
                Ok(true)
            },
            ExchangeState::ExchangeRecv { tx_acknowledged: false } if e.mrp.is_retrans_due(now)
                || e.mrp.is_exhausted(now) => {
                proof {
                    assert(self.exchanges@.update(i as int, self.exchanges@[i as int])
                        =~= self.exchanges@);
                }
                self.pull_retransmit(buffers, dest_tx, i, now)
            },
            ExchangeState::CompleteAcknowledge if e.mrp.is_retrans_due(now) || e.mrp.is_exhausted(
                now,
            ) => {
                proof {
                    assert(self.exchanges@.update(i as int, self.exchanges@[i as int])
                        =~= self.exchanges@);
                }
                self.pull_retransmit(buffers, dest_tx, i, now)
            },
            _ => {
                // only an owed acknowledgement is ready: it goes out bare and
                // the state stays
                ReliableMessage::prepare_ack(e.id.id, dest_tx);
                self.pre_send(i, dest_tx, now)?;
                Ok(true)
            },
        }
    }

    /// Retransmits the slot's message for the exchange at `idx`, or closes
    /// the exchange when its retries are spent.
    fn pull_retransmit(
        &mut self,
        buffers: &PacketBuffers,
        dest_tx: &mut Packet,
        idx: usize,
        now: u64,
    ) -> (r: Result<bool, Error>)
        requires
            old(self).wf(),
            buffers.wf(),
            now <= crate::mrp::MRP_MAX_NOW_MS,
            idx < old(self).exchanges@.len(),
            old(self).exchanges@[idx as int].mrp.retrans is Some,
            now >= old(self).exchanges@[idx as int].mrp.retrans.unwrap().deadline,
        ensures
            final(self).wf(),
            final(self).acl_mgr == old(self).acl_mgr,
            final(self).send_notification == old(self).send_notification,
            ({
                let e = old(self).exchanges@[idx as int];
                let sid = e.id.session_id;
                let sessions = old(self).session_mgr@;
                let si = crate::session::spec_sess_get_idx(
                    sessions,
                    sid.id,
                    sid.peer_addr,
                    sid.peer_nodeid,
                    sid.is_encrypted,
                );
                match r {
                    Ok(true) => ({
                        let base = buffers.tx@[e.slot.unwrap() as int]@;
                        &&& e.mrp.retrans.unwrap().retries < crate::mrp::MRP_MAX_RETRIES
                        &&& e.slot is Some
                        &&& si < sessions.len()
                        &&& final(dest_tx)@ == spec_stamped(base, e, sessions[si])
                        &&& final(self).session_mgr@ == sessions.update(
                            si,
                            crate::session::Session {
                                next_send_ctr: crate::dm::spec_wrap_inc(
                                    sessions[si].next_send_ctr,
                                ),
                                ..sessions[si]
                            },
                        )
                        &&& final(self).exchanges@ == old(self).exchanges@.update(
                            idx as int,
                            ExchangeCtx {
                                mrp: crate::mrp::spec_mrp_pre_send(
                                    e.mrp,
                                    base.proto.reliable,
                                    sessions[si].next_send_ctr,
                                    now,
                                ),
                                ..e
                            },
                        )
                    }),
                    Ok(false) => ({
                        &&& e.mrp.retrans.unwrap().retries >= crate::mrp::MRP_MAX_RETRIES
                        &&& final(self).exchanges@ == old(self).exchanges@.update(
                            idx as int,
                            ExchangeCtx { state: ExchangeState::Closed, notified: true, ..e },
                        )
                        &&& final(self).session_mgr@ == sessions
                        &&& final(dest_tx)@ == old(dest_tx)@
                    }),
                    Err(Error::NoSession) => ({
                        &&& e.mrp.retrans.unwrap().retries < crate::mrp::MRP_MAX_RETRIES
                        &&& e.slot is Some
                        &&& si == sessions.len()
                        &&& final(self).exchanges@ == old(self).exchanges@
                        &&& final(self).session_mgr@ == sessions
                        &&& final(dest_tx)@ == buffers.tx@[e.slot.unwrap() as int]@
                    }),
                    Err(Error::Invalid) => ({
                        &&& e.mrp.retrans.unwrap().retries < crate::mrp::MRP_MAX_RETRIES
                        &&& e.slot is None
                        &&& final(self).exchanges@ == old(self).exchanges@.update(
                            idx as int,
                            ExchangeCtx { state: ExchangeState::Closed, ..e },
                        )
                        &&& final(self).session_mgr@ == sessions
                        &&& final(dest_tx)@ == old(dest_tx)@
                    }),
                    Err(_) => false,
                }
            }),
    {
        let e = self.exchanges[idx];
        let exhausted = match e.mrp.retrans {
            Some(entry) => entry.retries >= crate::mrp::MRP_MAX_RETRIES,
            None => false,
        };
        if exhausted {
            // the peer is unreachable: the exchange closes and its handler
            // wakes to observe that
            let ctx = &mut self.exchanges[idx];
            ctx.state = ExchangeState::Closed;
            ctx.notified = true;
            return Ok(false);
        }
        let Some(slot) = e.slot else {
            let ctx = &mut self.exchanges[idx];
            ctx.state = ExchangeState::Closed;
            return Err(Error::Invalid);
        };
        dest_tx.load(&buffers.tx[slot]);
        self.pre_send(idx, dest_tx, now)?;
        Ok(true)
    }
}

} // verus!

verus! {

/// One conversation, one record: in a well-formed table two exchanges with
/// the same id are the same exchange. [`Matter::process_rx`] keeps the
/// table well-formed and only creates an exchange whose id the (purged)
/// table does not hold, so no run of the engine ever carries two exchanges
/// for one `ExchangeId`.
pub proof fn lemma_exchange_id_unique(s: Seq<ExchangeCtx>, i: int, j: int)
    requires
        spec_exchanges_wf(s),
        0 <= i < s.len(),
        0 <= j < s.len(),
        s[i].id == s[j].id,
    ensures
        i == j,
{
}

/// One handler, one buffer triple: in a well-formed table two exchanges
/// bound to the same slot are the same exchange, so the engine — which
/// reads and writes only through an exchange's own bound slot, as the
/// contracts of [`Matter::process_rx`] and [`Matter::pull_tx`] state —
/// never carries one handler's packet through another handler's buffers.
pub proof fn lemma_slot_owner_unique(s: Seq<ExchangeCtx>, i: int, j: int)
    requires
        spec_exchanges_wf(s),
        0 <= i < s.len(),
        0 <= j < s.len(),
        s[i].slot is Some,
        s[j].slot is Some,
        s[i].slot == s[j].slot,
    ensures
        i == j,
{
}

} // verus!
