//! Verified core of a rollup execution backend.
//!
//! A long-running process repeatedly asks a coordinating node whether input
//! is pending, classifies each request envelope, decodes its nested
//! hex-and-JSON payload, applies create/delete/attendance commands to a
//! roster keyed by wallet address, and reports an accept-or-reject outcome.
//!
//! The pieces, leaf first:
//! - [`hexcode`]: the payload codec (`0x` marker, hex digits, UTF-8 check),
//!   with the decode-of-encode round trip proved;
//! - [`jsonval`] and [`jsonparse`]: the structured form of a payload and the
//!   parser for it, specified by a recursive-descent grammar over the bytes;
//! - [`roster`]: the store of members with its case-insensitive identity
//!   keys, first-match lookups, and the laws on create/delete/attendance;
//! - [`dispatch`]: envelope classification and command dispatch, where every
//!   failure inside one request becomes a `Reject` outcome;
//! - [`driver`]: the state the poll loop carries between turns; the network
//!   itself stays with the caller.

use vstd::prelude::*;

pub mod dispatch;
pub mod driver;
pub mod hexcode;
pub mod jsonparse;
pub mod jsonval;
pub mod roster;

verus! {

/// Verdict reported to the node for the most recently processed request.
#[derive(Clone, Copy, PartialEq, Eq, Structural, Debug)]
pub enum Outcome {
    Accept,
    Reject,
}

} // verus!
