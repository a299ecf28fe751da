//! Sessions: peer identity, message counters and duplicate detection.
//!
//! The Secure Channel's cryptography is out of scope: a session here names
//! the peer (address, node id, local and peer session ids) and accounts for
//! the two message counters. On receive, a counter at or below the last one
//! seen is a replay and fails with `Duplicate`; on send, the session stamps
//! the peer's session id and the next counter.

use vstd::prelude::*;

use crate::error::Error;
use crate::packet::Address;

verus! {

/// Capacity of the session table.
pub const MAX_SESSIONS: usize = 16;

/// One established session.
#[derive(Clone, Copy, Debug, PartialEq, Eq)]
pub struct Session {
    /// Our local session id: what the peer writes into its plain headers.
    pub id: u16,
    /// The peer's session id: what we write into ours.
    pub peer_sess_id: u16,
    pub peer_addr: Address,
    pub peer_nodeid: Option<u64>,
    pub is_encrypted: bool,
    /// The highest counter seen from the peer; packets at or below it are
    /// replays. The peer's counters start at 1.
    pub last_recv_ctr: u32,
    /// The counter the next outgoing message carries.
    pub next_send_ctr: u32,
}

/// Index of the first session with this local id and peer address, or the
/// length if none has them.
pub open spec fn spec_sess_idx(s: Seq<Session>, id: u16, peer: Address) -> int
    decreases s.len(),
{
    if s.len() == 0 {
        0
    } else if s[0].id == id && s[0].peer_addr == peer {
        0
    } else {
        1 + spec_sess_idx(s.drop_first(), id, peer)
    }
}

pub proof fn lemma_sess_idx(s: Seq<Session>, id: u16, peer: Address)
    ensures
        0 <= spec_sess_idx(s, id, peer) <= s.len(),
        spec_sess_idx(s, id, peer) < s.len() ==> s[spec_sess_idx(s, id, peer)].id == id
            && s[spec_sess_idx(s, id, peer)].peer_addr == peer,
        forall|j: int|
            0 <= j < spec_sess_idx(s, id, peer) ==> !(s[j].id == id && s[j].peer_addr == peer),
    decreases s.len(),
{
    if s.len() > 0 && !(s[0].id == id && s[0].peer_addr == peer) {
        lemma_sess_idx(s.drop_first(), id, peer);
        assert forall|j: int| 0 <= j < spec_sess_idx(s, id, peer) implies !(s[j].id == id
            && s[j].peer_addr == peer) by {
            if j > 0 {
                assert(s.drop_first()[j - 1] == s[j]);
            }
        }
    }
}

/// Index of the first session with this exact identity, or the length if
/// none has it.
pub open spec fn spec_sess_get_idx(
    s: Seq<Session>,
    id: u16,
    peer_addr: Address,
    peer_nodeid: Option<u64>,
    is_encrypted: bool,
) -> int
    decreases s.len(),
{
    if s.len() == 0 {
        0
    } else if s[0].id == id && s[0].peer_addr == peer_addr && s[0].peer_nodeid == peer_nodeid
        && s[0].is_encrypted == is_encrypted {
        0
    } else {
        1 + spec_sess_get_idx(s.drop_first(), id, peer_addr, peer_nodeid, is_encrypted)
    }
}

pub proof fn lemma_sess_get_idx(
    s: Seq<Session>,
    id: u16,
    peer_addr: Address,
    peer_nodeid: Option<u64>,
    is_encrypted: bool,
)
    ensures
        0 <= spec_sess_get_idx(s, id, peer_addr, peer_nodeid, is_encrypted) <= s.len(),
        spec_sess_get_idx(s, id, peer_addr, peer_nodeid, is_encrypted) < s.len() ==> ({
            let i = spec_sess_get_idx(s, id, peer_addr, peer_nodeid, is_encrypted);
            s[i].id == id && s[i].peer_addr == peer_addr && s[i].peer_nodeid == peer_nodeid
                && s[i].is_encrypted == is_encrypted
        }),
        forall|j: int|
            0 <= j < spec_sess_get_idx(s, id, peer_addr, peer_nodeid, is_encrypted) ==> !(s[j].id
                == id && s[j].peer_addr == peer_addr && s[j].peer_nodeid == peer_nodeid
                && s[j].is_encrypted == is_encrypted),
    decreases s.len(),
{
    if s.len() > 0 && !(s[0].id == id && s[0].peer_addr == peer_addr && s[0].peer_nodeid
        == peer_nodeid && s[0].is_encrypted == is_encrypted) {
        lemma_sess_get_idx(s.drop_first(), id, peer_addr, peer_nodeid, is_encrypted);
        assert forall|j: int|
            0 <= j < spec_sess_get_idx(s, id, peer_addr, peer_nodeid, is_encrypted) implies !(
        s[j].id == id && s[j].peer_addr == peer_addr && s[j].peer_nodeid == peer_nodeid
            && s[j].is_encrypted == is_encrypted) by {
            if j > 0 {
                assert(s.drop_first()[j - 1] == s[j]);
            }
        }
    }
}

/// The session table.
#[derive(Debug)]
pub struct SessionMgr {
    sessions: Vec<Session>,
}

impl View for SessionMgr {
    type V = Seq<Session>;

    closed spec fn view(&self) -> Seq<Session> {
        self.sessions@
    }
}

impl SessionMgr {
    /// An empty table.
    pub fn new() -> (m: SessionMgr)
        ensures
            m@ =~= Seq::<Session>::empty(),
    {
        SessionMgr { sessions: Vec::new() }
    }

    /// Drops every session.
    pub fn reset(&mut self)
        ensures
            final(self)@ =~= Seq::<Session>::empty(),
    {
        self.sessions.clear();
    }

    /// Installs a session; fails once the table is full. Counters start
    /// fresh: nothing received yet, the first send carries counter 1.
    pub fn add_session(
        &mut self,
        id: u16,
        peer_sess_id: u16,
        peer_addr: Address,
        peer_nodeid: Option<u64>,
        is_encrypted: bool,
    ) -> (r: Result<usize, Error>)
        ensures
            match r {
                Ok(i) => final(self)@ == old(self)@.push(
                    Session {
                        id,
                        peer_sess_id,
                        peer_addr,
                        peer_nodeid,
                        is_encrypted,
                        last_recv_ctr: 0,
                        next_send_ctr: 1,
                    },
                ) && i == old(self)@.len() && old(self)@.len() < MAX_SESSIONS,
                Err(e) => e == Error::NoSpace && final(self)@ == old(self)@ && old(self)@.len()
                    >= MAX_SESSIONS,
            },
    {
        if self.sessions.len() >= MAX_SESSIONS {
            return Err(Error::NoSpace);
        }
        let i = self.sessions.len();
        self.sessions.push(
            Session {
                id,
                peer_sess_id,
                peer_addr,
                peer_nodeid,
                is_encrypted,
                last_recv_ctr: 0,
                next_send_ctr: 1,
            },
        );
        Ok(i)
    }

    /// The session a received plain header names: the first one with its
    /// session id and the datagram's source address; `NoSession` if none.
    pub fn post_recv(&self, sess_id: u16, peer: Address) -> (r: Result<usize, Error>)
        ensures
            match r {
                Ok(i) => i == spec_sess_idx(self@, sess_id, peer) && i < self@.len(),
                Err(e) => e == Error::NoSession && spec_sess_idx(self@, sess_id, peer)
                    == self@.len(),
            },
    {
        proof {
            lemma_sess_idx(self@, sess_id, peer);
        }
        let mut i: usize = 0;
        while i < self.sessions.len()
            invariant
                i <= self@.len(),
                forall|j: int| 0 <= j < i ==> !(self@[j].id == sess_id && self@[j].peer_addr == peer),
            decreases self@.len() - i,
        {
            let s = &self.sessions[i];
            if s.id == sess_id && s.peer_addr.ip == peer.ip && s.peer_addr.port == peer.port {
                return Ok(i);
            }
            i = i + 1;
        }
        Err(Error::NoSession)
    }

    /// Accounts for a received counter: a replay (at or below the last one
    /// seen) fails with `Duplicate` and changes nothing; otherwise the
    /// session remembers it.
    pub fn recv(&mut self, idx: usize, ctr: u32) -> (r: Result<(), Error>)
        requires
            idx < old(self)@.len(),
        ensures
            match r {
                Ok(()) => ctr > old(self)@[idx as int].last_recv_ctr && final(self)@ == old(
                    self,
                )@.update(
                    idx as int,
                    Session { last_recv_ctr: ctr, ..old(self)@[idx as int] },
                ),
                Err(e) => e == Error::Duplicate && ctr <= old(self)@[idx as int].last_recv_ctr
                    && final(self)@ == old(self)@,
            },
    {
        if ctr <= self.sessions[idx].last_recv_ctr {
            return Err(Error::Duplicate);
        }
        let s = &mut self.sessions[idx];
        s.last_recv_ctr = ctr;
        proof {
            assert(final(self)@ =~= old(self)@.update(
                idx as int,
                Session { last_recv_ctr: ctr, ..old(self)@[idx as int] },
            ));
        }
        Ok(())
    }

    /// The session for this exact identity, if the table has one.
    pub fn get(
        &self,
        id: u16,
        peer_addr: Address,
        peer_nodeid: Option<u64>,
        is_encrypted: bool,
    ) -> (r: Option<usize>)
        ensures
            match r {
                Some(i) => i == spec_sess_get_idx(self@, id, peer_addr, peer_nodeid, is_encrypted)
                    && i < self@.len() && self@[i as int].id == id && self@[i as int].peer_addr
                    == peer_addr && self@[i as int].peer_nodeid == peer_nodeid && self@[
                    i as int
                ].is_encrypted == is_encrypted,
                None => spec_sess_get_idx(self@, id, peer_addr, peer_nodeid, is_encrypted)
                    == self@.len(),
            },
    {
        proof {
            lemma_sess_get_idx(self@, id, peer_addr, peer_nodeid, is_encrypted);
        }
        let mut i: usize = 0;
        while i < self.sessions.len()
            invariant
                i <= self@.len(),
                forall|j: int|
                    0 <= j < i ==> !(self@[j].id == id && self@[j].peer_addr == peer_addr && self@[
                        j
                    ].peer_nodeid == peer_nodeid && self@[j].is_encrypted == is_encrypted),
            decreases self@.len() - i,
        {
            let s = &self.sessions[i];
            let nodeid_eq = match (s.peer_nodeid, peer_nodeid) {
                (None, None) => true,
                (Some(a), Some(b)) => a == b,
                _ => false,
            };
            if s.id == id && s.peer_addr.ip == peer_addr.ip && s.peer_addr.port == peer_addr.port
                && nodeid_eq && s.is_encrypted == is_encrypted {
                return Some(i);
            }
            i = i + 1;
        }
        None
    }

    /// Stamps an outgoing plain header: the peer's session id and the next
    /// counter, which then moves up by one (wrapping).
    pub fn pre_send(&mut self, idx: usize) -> (r: (u16, u32))
        requires
            idx < old(self)@.len(),
        ensures
            r.0 == old(self)@[idx as int].peer_sess_id,
            r.1 == old(self)@[idx as int].next_send_ctr,
            final(self)@ == old(self)@.update(
                idx as int,
                Session {
                    next_send_ctr: crate::dm::spec_wrap_inc(old(self)@[idx as int].next_send_ctr),
                    ..old(self)@[idx as int]
                },
            ),
    {
        let s = &mut self.sessions[idx];
        let sess = s.peer_sess_id;
        let ctr = s.next_send_ctr;
        s.next_send_ctr = s.next_send_ctr.wrapping_add(1);
        proof {
            assert(final(self)@ =~= old(self)@.update(
                idx as int,
                Session {
                    next_send_ctr: crate::dm::spec_wrap_inc(old(self)@[idx as int].next_send_ctr),
                    ..old(self)@[idx as int]
                },
            ));
        }
        (sess, ctr)
    }

    /// How many sessions stand in the table.
    pub fn len(&self) -> (n: usize)
        ensures
            n == self@.len(),
    {
        self.sessions.len()
    }

    /// The session at an index.
    pub fn session_at(&self, idx: usize) -> (s: Session)
        requires
            idx < self@.len(),
        ensures
            s == self@[idx as int],
    {
        self.sessions[idx]
    }
}

} // verus!
