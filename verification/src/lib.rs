//! Core of a Matter (Connected Home over IP) protocol node: the transport /
//! exchange engine together with the Interaction Model dispatcher and the
//! access-control layer that sits on top of it.
//!
//! The library is organised bottom-up:
//! - [`error`]: the engine-level error taxonomy;
//! - [`packet`]: message buffers and the plain / protocol header codecs;
//! - [`pipe`]: the single-slot handoff between the I/O loops and the engine;
//! - [`session`]: session identities, message counters and duplicate detection
//!   (the cryptography of the Secure Channel is out of scope: sessions here
//!   carry identity and counters, and an embedding supplies the ciphering);
//! - [`mrp`]: the Message Reliability Protocol state of one exchange;
//! - [`exchange`]: the per-conversation record and its state machine;
//! - [`engine`]: the exchange engine proper (inbound dispatch, outbound pull);
//! - [`acl`]: access-control entries and their evaluation;
//! - [`dm`]: the endpoint / cluster / attribute tree;
//! - [`im`]: the Interaction Model messages;
//! - [`dispatch`]: the Read / Write / Invoke dispatcher over the tree and
//!   the access-control list.
//!
//! Everything here is synchronous and verified; the UDP socket, the timers and
//! the cooperative scheduling around the engine live with the embedding, which
//! drives the engine through the public functions of [`engine`].

#![verifier::loop_isolation(false)]

pub mod acl;
pub mod dispatch;
pub mod dm;
pub mod engine;
pub mod error;
pub mod exchange;
pub mod im;
pub mod mrp;
pub mod packet;
pub mod pipe;
pub mod session;
