//! A minimal single-threaded network reactor core: byte-stream multiplexing
//! over one OS readiness-polling primitive.
//!
//! This crate holds the reactor's logic: the per-direction buffered stream
//! state machine, the resource table keyed by connection tokens, and the
//! decisions of the accept/read/write/close protocol. The OS-facing pieces
//! (the polling primitive, the sockets, the wakeup channel) live in the
//! driver around this crate; the driver performs each non-blocking call
//! and hands its outcome back to the functions here.
use vstd::prelude::*;

pub mod handle;
pub mod laws;
pub mod reactor;
pub mod stream;

verus! {

/// An opaque, monotonically increasing identifier naming a listener or a
/// connection in the resource table. Token 0 is reserved for the driver's
/// wakeup channel and never appears in the table.
#[derive(Clone, Copy, Debug, PartialEq, Eq, Hash, Structural)]
pub struct Token(pub usize);

/// One direction of a full-duplex connection.
#[derive(Clone, Copy, Debug, PartialEq, Eq, Structural)]
pub enum Direction {
    Read,
    Write,
}

/// A high-level event surfaced to the application through the pull API.
#[derive(Clone, Copy, Debug, PartialEq, Eq, Structural)]
pub enum Event {
    /// A listener accepted a peer; the new connection got this token.
    NewConnection(Token),
    /// Either buffer of this connection changed; the application should
    /// re-check its readable bytes and its own write backlog.
    Data(Token),
    /// The given direction of this connection reached its terminal state.
    Done(Token, Direction),
}

} // verus!
