//! Engine-level errors.
//!
//! These are the failures that the transport core itself can raise; the
//! statuses that the Interaction Model embeds in its responses are in
//! [`crate::im`] and are never surfaced as engine errors.

use vstd::prelude::*;

verus! {

/// What the transport core can fail with.
///
/// - `Duplicate` is caught inside the inbound path: it prompts an ack nudge
///   and the packet is dropped; it never surfaces to a handler.
/// - `NoSession`, `NoExchange` and `NoSpace` surface to the handler of the
///   affected exchange, never to other exchanges.
/// - `Invalid` marks a malformed packet or an impossible state; the affected
///   exchange closes and the engine continues.
#[derive(Clone, Copy, Debug, PartialEq, Eq, Structural)]
pub enum Error {
    Duplicate,
    NoSession,
    NoExchange,
    NoSpace,
    Invalid,
}

} // verus!
