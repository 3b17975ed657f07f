//! The per-direction buffered stream state machine.
//!
//! A `Stream` owns one direction's pending bytes and its lifecycle state.
//! The four-state split separates "stop accepting new data" from "still must
//! flush or observe what is already pending": an application-initiated close
//! must not drop bytes already queued for send, while a natural end-of-input
//! must still let already-buffered bytes reach the application.
//!
//! Every transition the reactor performs on a direction is first stated as a
//! mathematical step function on `StreamModel` (the view of a `Stream`); the
//! executable operations are proved to follow those step functions exactly.
use vstd::prelude::*;

use crate::Direction;
use crate::Event;
use crate::Token;

verus! {

/// The default capacity threshold of an inbound buffer, and the size of the
/// driver's scratch read buffer: 8 KiB.
pub const BUF_SIZE: usize = 8 * 1024;

/// Lifecycle state of one direction, together with that direction's pending
/// bytes where the state still carries any.
pub enum StreamState {
    /// Actively accumulating (inbound) or awaiting drain (outbound);
    /// `wanted` is the capacity threshold governing backpressure.
    Normal { buf: Vec<u8>, wanted: usize },
    /// No new data is accepted from the side that feeds this buffer, but the
    /// bytes already buffered must still be delivered before completion.
    Draining { buf: Vec<u8> },
    /// The application force-closed this direction before its natural end:
    /// pending bytes were discarded, yet the direction keeps participating
    /// in readiness so the natural end-of-stream can still be observed.
    AwaitingConfirmation,
    /// Terminal: no further data, no further readiness interest.
    Done,
}

/// One direction (inbound or outbound) of one connection.
pub struct Stream {
    pub state: StreamState,
}

/// The mathematical model of a direction: the same four states, with the
/// pending bytes as a sequence.
pub ghost enum StreamModel {
    Normal { buf: Seq<u8>, wanted: nat },
    Draining { buf: Seq<u8> },
    AwaitingConfirmation,
    Done,
}

/// Outcome of one non-blocking read the driver attempted on a connection's
/// socket. The driver performs the call; this crate decides what it means.
pub enum ReadOutcome {
    /// Zero bytes were read: the peer's natural end-of-stream.
    Eof,
    /// A non-empty chunk was read.
    Data(Vec<u8>),
    /// The read would block: no more work this wakeup.
    WouldBlock,
    /// Any other I/O error.
    Error,
}

/// Outcome of one non-blocking write of the full pending buffer.
pub enum WriteOutcome {
    /// The socket accepted zero bytes: the peer's write side is closed.
    Closed,
    /// The socket accepted the first `n` bytes of the pending buffer.
    Accepted(usize),
    /// The write would block: no more work this wakeup.
    WouldBlock,
    /// Any other I/O error.
    Error,
}

/// Model of a read outcome.
pub ghost enum ReadOutcomeModel {
    Eof,
    Data(Seq<u8>),
    WouldBlock,
    Error,
}

/// Model of a write outcome.
pub ghost enum WriteOutcomeModel {
    Closed,
    Accepted(nat),
    WouldBlock,
    Error,
}

impl View for Stream {
    type V = StreamModel;

    open spec fn view(&self) -> StreamModel {
        match self.state {
            StreamState::Normal { buf, wanted } => StreamModel::Normal {
                buf: buf@,
                wanted: wanted as nat,
            },
            StreamState::Draining { buf } => StreamModel::Draining { buf: buf@ },
            StreamState::AwaitingConfirmation => StreamModel::AwaitingConfirmation,
            StreamState::Done => StreamModel::Done,
        }
    }
}

impl View for ReadOutcome {
    type V = ReadOutcomeModel;

    open spec fn view(&self) -> ReadOutcomeModel {
        match self {
            ReadOutcome::Eof => ReadOutcomeModel::Eof,
            ReadOutcome::Data(bytes) => ReadOutcomeModel::Data(bytes@),
            ReadOutcome::WouldBlock => ReadOutcomeModel::WouldBlock,
            ReadOutcome::Error => ReadOutcomeModel::Error,
        }
    }
}

impl View for WriteOutcome {
    type V = WriteOutcomeModel;

    open spec fn view(&self) -> WriteOutcomeModel {
        match self {
            WriteOutcome::Closed => WriteOutcomeModel::Closed,
            WriteOutcome::Accepted(n) => WriteOutcomeModel::Accepted(*n as nat),
            WriteOutcome::WouldBlock => WriteOutcomeModel::WouldBlock,
            WriteOutcome::Error => WriteOutcomeModel::Error,
        }
    }
}

impl StreamModel {
    /// The pending bytes, where the state makes them addressable.
    pub open spec fn buf(self) -> Option<Seq<u8>> {
        match self {
            StreamModel::Normal { buf, .. } => Some(buf),
            StreamModel::Draining { buf } => Some(buf),
            StreamModel::AwaitingConfirmation => None,
            StreamModel::Done => None,
        }
    }

    /// The capacity threshold, where the state carries one.
    pub open spec fn wanted(self) -> nat {
        match self {
            StreamModel::Normal { wanted, .. } => wanted,
            _ => 0,
        }
    }

    /// The same state with its pending bytes replaced; states without an
    /// addressable buffer are unchanged.
    pub open spec fn with_buf(self, b: Seq<u8>) -> StreamModel {
        match self {
            StreamModel::Normal { wanted, .. } => StreamModel::Normal { buf: b, wanted },
            StreamModel::Draining { .. } => StreamModel::Draining { buf: b },
            _ => self,
        }
    }

    /// Whether readiness of the feeding side should be requested: true while
    /// accumulating below the capacity threshold (backpressure), and while
    /// force-closed (the natural end must still be observed).
    pub open spec fn read_interest(self) -> bool {
        match self {
            StreamModel::Normal { buf, wanted } => buf.len() < wanted,
            StreamModel::AwaitingConfirmation => true,
            StreamModel::Draining { .. } => false,
            StreamModel::Done => false,
        }
    }

    /// Whether a fill attempt may be made at all: true while accumulating and
    /// while force-closed (the attempt still happens while discarding, so the
    /// natural end-of-stream can be detected).
    pub open spec fn do_read(self) -> bool {
        match self {
            StreamModel::Normal { .. } => true,
            StreamModel::AwaitingConfirmation => true,
            StreamModel::Draining { .. } => false,
            StreamModel::Done => false,
        }
    }

    /// Whether the draining side has work or must be watched: true while
    /// bytes are pending or while force-closed.
    pub open spec fn write_interest(self) -> bool {
        match self {
            StreamModel::Normal { buf, .. } => buf.len() > 0,
            StreamModel::Draining { buf } => buf.len() > 0,
            StreamModel::AwaitingConfirmation => true,
            StreamModel::Done => false,
        }
    }

    pub open spec fn is_done(self) -> bool {
        self is Done
    }

    /// The state after one read outcome is applied to an inbound direction.
    ///
    /// - A natural end-of-stream while accumulating preserves the buffered
    ///   bytes for the application (Draining); while force-closed it is the
    ///   awaited confirmation, so the direction finishes (Done).
    /// - Data read while accumulating is appended, whatever the threshold
    ///   (the threshold gates readiness interest, never an arrived chunk);
    ///   while force-closed it is discarded.
    /// - An unrecoverable error while accumulating discards the buffered
    ///   bytes but keeps watching for the natural end; while force-closed it
    ///   finishes the direction.
    pub open spec fn read_next(self, o: ReadOutcomeModel) -> StreamModel {
        match o {
            ReadOutcomeModel::Eof => match self {
                StreamModel::Normal { buf, .. } => StreamModel::Draining { buf },
                StreamModel::AwaitingConfirmation => StreamModel::Done,
                _ => self,
            },
            ReadOutcomeModel::Data(bytes) => match self {
                StreamModel::Normal { buf, wanted } => StreamModel::Normal {
                    buf: buf + bytes,
                    wanted,
                },
                _ => self,
            },
            ReadOutcomeModel::WouldBlock => self,
            ReadOutcomeModel::Error => match self {
                StreamModel::Normal { .. } => StreamModel::AwaitingConfirmation,
                StreamModel::AwaitingConfirmation => StreamModel::Done,
                _ => self,
            },
        }
    }

    /// The events one read outcome surfaces: a natural end-of-stream reports
    /// the direction as finished, an appended chunk reports new data; a
    /// discarded chunk, a would-block and an error report nothing.
    pub open spec fn read_events(self, o: ReadOutcomeModel, t: Token) -> Seq<Event> {
        match o {
            ReadOutcomeModel::Eof => seq![Event::Done(t, Direction::Read)],
            ReadOutcomeModel::Data(bytes) => if self is Normal {
                seq![Event::Data(t)]
            } else {
                Seq::empty()
            },
            ReadOutcomeModel::WouldBlock => Seq::empty(),
            ReadOutcomeModel::Error => Seq::empty(),
        }
    }

    /// Whether the drain loop should attempt another read after this
    /// outcome: data (appended or discarded) keeps draining, an error while
    /// accumulating keeps watching for the natural end, everything else
    /// stops this wakeup.
    pub open spec fn read_more(self, o: ReadOutcomeModel) -> bool {
        match o {
            ReadOutcomeModel::Eof => false,
            ReadOutcomeModel::Data(bytes) => true,
            ReadOutcomeModel::WouldBlock => false,
            ReadOutcomeModel::Error => self is Normal,
        }
    }

    /// The state after one write outcome is applied to an outbound
    /// direction.
    ///
    /// - A rejected write (zero bytes accepted) or an unrecoverable error is
    ///   terminal.
    /// - Accepted bytes leave the buffer, preserving the order of the
    ///   remainder; a draining direction whose last pending byte left has
    ///   reached terminal success and finishes.
    pub open spec fn write_next(self, o: WriteOutcomeModel) -> StreamModel {
        match o {
            WriteOutcomeModel::Closed => StreamModel::Done,
            WriteOutcomeModel::Accepted(n) => match self {
                StreamModel::Normal { buf, wanted } => StreamModel::Normal {
                    buf: buf.skip(n as int),
                    wanted,
                },
                StreamModel::Draining { buf } => if n == buf.len() {
                    StreamModel::Done
                } else {
                    StreamModel::Draining { buf: buf.skip(n as int) }
                },
                _ => self,
            },
            WriteOutcomeModel::WouldBlock => self,
            WriteOutcomeModel::Error => StreamModel::Done,
        }
    }

    /// The events one write outcome surfaces: a rejected write reports the
    /// direction as finished; accepted bytes report progress, and a draining
    /// direction that flushed its last byte additionally reports itself
    /// finished; a would-block and an error report nothing.
    pub open spec fn write_events(self, o: WriteOutcomeModel, t: Token) -> Seq<Event> {
        match o {
            WriteOutcomeModel::Closed => seq![Event::Done(t, Direction::Write)],
            WriteOutcomeModel::Accepted(n) => if self is Draining && n == self.buf().unwrap().len() {
                seq![Event::Data(t), Event::Done(t, Direction::Write)]
            } else {
                seq![Event::Data(t)]
            },
            WriteOutcomeModel::WouldBlock => Seq::empty(),
            WriteOutcomeModel::Error => Seq::empty(),
        }
    }

    /// Whether the drain loop should attempt another write after this
    /// outcome: only accepted bytes that did not finish the direction do.
    pub open spec fn write_more(self, o: WriteOutcomeModel) -> bool {
        match o {
            WriteOutcomeModel::Accepted(n) => !(self is Draining && n == self.buf().unwrap().len()),
            _ => false,
        }
    }
}

impl Stream {
    /// True iff readiness of the feeding side should be requested from the
    /// OS primitive for this direction.
    pub fn read_interest(&self) -> (r: bool)
        ensures
            r == self@.read_interest(),
    {
        match &self.state {
            StreamState::Normal { buf, wanted } => buf.len() < *wanted,
            StreamState::AwaitingConfirmation => true,
            StreamState::Draining { .. } | StreamState::Done => false,
        }
    }

    /// True iff a fill attempt may be made on this direction.
    pub fn do_read(&self) -> (r: bool)
        ensures
            r == self@.do_read(),
    {
        match self.state {
            StreamState::Normal { .. } | StreamState::AwaitingConfirmation => true,
            StreamState::Draining { .. } | StreamState::Done => false,
        }
    }

    /// True iff writable readiness should be requested for this direction.
    pub fn write_interest(&self) -> (r: bool)
        ensures
            r == self@.write_interest(),
    {
        match &self.state {
            StreamState::Normal { buf, .. } | StreamState::Draining { buf } => buf.len() > 0,
            StreamState::AwaitingConfirmation => true,
            StreamState::Done => false,
        }
    }

    /// True iff a drain attempt may be made on this direction.
    pub fn do_write(&self) -> (r: bool)
        ensures
            r == self@.write_interest(),
    {
        match &self.state {
            StreamState::Normal { buf, .. } | StreamState::Draining { buf } => buf.len() > 0,
            StreamState::AwaitingConfirmation => true,
            StreamState::Done => false,
        }
    }

    /// True iff this direction reached its terminal state.
    pub fn is_done(&self) -> (r: bool)
        ensures
            r == self@.is_done(),
    {
        match self.state {
            StreamState::Done => true,
            _ => false,
        }
    }

    /// The pending bytes, where the state makes them addressable; once a
    /// direction is force-closed or finished, its buffer is unavailable.
    pub fn buf(&self) -> (r: Option<&Vec<u8>>)
        ensures
            match r {
                Some(b) => self@.buf() == Some(b@),
                None => self@.buf() is None,
            },
    {
        match &self.state {
            StreamState::Normal { buf, .. } | StreamState::Draining { buf } => Some(buf),
            StreamState::AwaitingConfirmation | StreamState::Done => None,
        }
    }

    /// Mutable access to the pending bytes, where the state makes them
    /// addressable. The direction's lifecycle state cannot change through
    /// the returned reference, only the bytes.
    pub fn buf_mut(&mut self) -> (r: Option<&mut Vec<u8>>)
        ensures
            match r {
                Some(b) => {
                    &&& old(self)@.buf() == Some((*b)@)
                    &&& final(self)@ == old(self)@.with_buf((*final(b))@)
                },
                None => {
                    &&& old(self)@.buf() is None
                    &&& *final(self) == *old(self)
                },
            },
    {
        match &mut self.state {
            StreamState::Normal { buf, .. } => Some(buf),
            StreamState::Draining { buf } => Some(buf),
            StreamState::AwaitingConfirmation | StreamState::Done => None,
        }
    }

    /// Open or Draining -> AwaitingConfirmation, discarding any pending
    /// bytes at once. Calling this on an already force-closed or finished
    /// direction is a contract violation (the same direction would have been
    /// force-closed twice), so those states are excluded here.
    pub fn become_truncating_close(&mut self)
        requires
            old(self)@ is Normal || old(self)@ is Draining,
        ensures
            final(self)@ == StreamModel::AwaitingConfirmation,
    {
        self.state = StreamState::AwaitingConfirmation;
    }

    /// Open -> Draining, preserving the pending bytes for flush; invoked when
    /// the side feeding this buffer reaches its natural end while the stream
    /// is still accepting. Any other starting state is a contract violation.
    pub fn become_draining_close(&mut self)
        requires
            old(self)@ is Normal,
        ensures
            final(self)@ == (StreamModel::Draining { buf: old(self)@.buf().unwrap() }),
    {
        let mut taken = StreamState::AwaitingConfirmation;
        core::mem::swap(&mut taken, &mut self.state);
        match taken {
            StreamState::Normal { buf, .. } => {
                self.state = StreamState::Draining { buf };
            }
            StreamState::Draining { .. }
            | StreamState::AwaitingConfirmation
            | StreamState::Done => {
                proof {
                    assert(false);
                }
            }
        }
    }

    /// Unconditional transition to Done: a drain operation reached terminal
    /// success or an unrecoverable error.
    pub fn totes_done(&mut self)
        ensures
            final(self)@ == StreamModel::Done,
    {
        self.state = StreamState::Done;
    }
}

impl Default for Stream {
    /// A fresh direction: accepting, empty, with the default capacity
    /// threshold.
    fn default() -> (s: Stream)
        ensures
            s@ == (StreamModel::Normal { buf: Seq::<u8>::empty(), wanted: BUF_SIZE as nat }),
    {
        Stream {
            state: StreamState::Normal { buf: Vec::new(), wanted: BUF_SIZE },
        }
    }
}

} // verus!
