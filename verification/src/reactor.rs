//! The reactor state: the resource table, the identifier allocator, the
//! pending-event queue, and the accept/read/write/close decisions.
use vstd::prelude::*;

use crate::stream::ReadOutcome;
use crate::stream::ReadOutcomeModel;
use crate::stream::Stream;
use crate::stream::StreamModel;
use crate::stream::StreamState;
use crate::stream::WriteOutcome;
use crate::stream::WriteOutcomeModel;
use crate::Direction;
use crate::Event;
use crate::Token;

verus! {

/// A connection: two buffered streams, one per direction. The raw duplex
/// socket itself is owned by the driver, keyed by the same token.
pub struct Conn {
    pub read_buffer: Stream,
    pub write_buffer: Stream,
}

/// What a token resolves to: a listening socket or an accepted connection.
pub enum OwnedMode {
    /// A bound listening socket; it never transitions state, and the socket
    /// itself is held by the driver.
    Server,
    Conn(Conn),
}

/// One entry of the resource table.
pub struct Owned {
    pub token: Token,
    pub mode: OwnedMode,
}

/// The reactor core: resource table, identifier allocator and event queue.
/// The OS polling primitive and the wakeup channel are the driver's.
pub struct Net {
    pub last_token: usize,
    pub tokens: Vec<Owned>,
    pub events: Vec<Event>,
}

impl Conn {
    /// Both directions terminal: the connection is eligible for removal.
    pub open spec fn spec_both_done(self) -> bool {
        self.read_buffer@.is_done() && self.write_buffer@.is_done()
    }
}

impl Owned {
    /// The entry is a connection whose two directions are both Done.
    pub open spec fn spec_closeable(self) -> bool {
        match self.mode {
            OwnedMode::Server => false,
            OwnedMode::Conn(c) => c.spec_both_done(),
        }
    }
}

/// The connection of an entry known to hold one.
pub open spec fn conn_of(o: Owned) -> Conn
    recommends
        o.mode is Conn,
{
    match o.mode {
        OwnedMode::Conn(c) => c,
        OwnedMode::Server => vstd::pervasive::arbitrary(),
    }
}

impl Net {
    /// Well-formedness of the resource table: every token was allocated
    /// (positive, at most the allocator's high-water mark) and no token
    /// names two entries.
    pub open spec fn wf(self) -> bool {
        &&& forall|i: int|
            0 <= i < self.tokens@.len() ==> 1 <= (#[trigger] self.tokens@[i]).token.0
                <= self.last_token
        &&& forall|i: int, j: int|
            0 <= i < j < self.tokens@.len() ==> (#[trigger] self.tokens@[i]).token.0 != (
            #[trigger] self.tokens@[j]).token.0
    }

    /// Whether some entry carries this token.
    pub open spec fn spec_has(self, t: Token) -> bool {
        exists|i: int| 0 <= i < self.tokens@.len() && (#[trigger] self.tokens@[i]).token == t
    }

    /// An empty reactor: no resources, no pending events; token 0 is left
    /// to the wakeup channel and token 1 to the allocator's starting point.
    pub fn empty() -> (n: Net)
        ensures
            n.last_token == 1,
            n.tokens@.len() == 0,
            n.events@.len() == 0,
            n.wf(),
    {
        Net { last_token: 1, tokens: Vec::new(), events: Vec::new() }
    }

    /// Allocate the next identifier. Exhaustion of the identifier space is a
    /// fatal contract violation, not a recoverable error, so it is excluded
    /// here; the driver aborts instead of calling past the maximum.
    pub fn bump_token(&mut self) -> (t: Token)
        requires
            old(self).last_token < usize::MAX,
        ensures
            final(self).last_token == old(self).last_token + 1,
            t.0 == final(self).last_token,
            final(self).tokens == old(self).tokens,
            final(self).events == old(self).events,
    {
        self.last_token = self.last_token + 1;
        Token(self.last_token)
    }

    /// The index of the entry carrying this token.
    pub open spec fn spec_index_of(self, t: Token) -> int {
        choose|i: int| 0 <= i < self.tokens@.len() && (#[trigger] self.tokens@[i]).token == t
    }

    /// The entry carrying this token.
    pub open spec fn spec_at(self, t: Token) -> Owned
        recommends
            self.spec_has(t),
    {
        self.tokens@[self.spec_index_of(t)]
    }

    /// In a well-formed table a token names at most one entry, so the entry
    /// found at any index carrying the token is the entry of that token.
    pub proof fn lemma_index_of_unique(self, t: Token, i: int)
        requires
            self.wf(),
            0 <= i < self.tokens@.len(),
            self.tokens@[i].token == t,
        ensures
            self.spec_has(t),
            self.spec_index_of(t) == i,
    {
        assert(self.spec_has(t));
        let j = self.spec_index_of(t);
        assert(0 <= j < self.tokens@.len() && self.tokens@[j].token == t);
        if i < j {
            assert(self.tokens@[i].token.0 != self.tokens@[j].token.0);
        } else if j < i {
            assert(self.tokens@[j].token.0 != self.tokens@[i].token.0);
        }
    }

    /// Record a freshly bound listening socket: allocate a token for it and
    /// enter it into the resource table. The driver binds the socket,
    /// registers it with the OS primitive under the returned token for
    /// readable readiness, and keeps it.
    pub fn tcp_listen(&mut self) -> (t: Token)
        requires
            old(self).wf(),
            old(self).last_token < usize::MAX,
        ensures
            final(self).wf(),
            t.0 == old(self).last_token + 1,
            final(self).last_token == t.0,
            final(self).tokens@ == old(self).tokens@.push(
                (Owned { token: t, mode: OwnedMode::Server }),
            ),
            final(self).events == old(self).events,
            final(self).spec_has(t),
    {
        let token = self.bump_token();
        self.tokens.push(Owned { token, mode: OwnedMode::Server });
        proof {
            assert(self.tokens@[self.tokens@.len() - 1].token == token);
            self.lemma_index_of_unique(token, self.tokens@.len() - 1);
        }
        token
    }

    /// Record a connection the driver just accepted: allocate a token for
    /// it, enter it with both directions open and empty, and queue the
    /// `NewConnection` event. The driver registers the socket under the
    /// returned token for readable readiness and keeps it.
    pub fn accept_conn(&mut self) -> (t: Token)
        requires
            old(self).wf(),
            old(self).last_token < usize::MAX,
        ensures
            final(self).wf(),
            t.0 == old(self).last_token + 1,
            final(self).last_token == t.0,
            final(self).tokens@.len() == old(self).tokens@.len() + 1,
            final(self).tokens@.subrange(0, old(self).tokens@.len() as int) == old(self).tokens@,
            ({
                let entry = final(self).tokens@.last();
                &&& entry.token == t
                &&& entry.mode is Conn
                &&& conn_of(entry).read_buffer@ == (StreamModel::Normal {
                    buf: Seq::<u8>::empty(),
                    wanted: crate::stream::BUF_SIZE as nat,
                })
                &&& conn_of(entry).write_buffer@ == (StreamModel::Normal {
                    buf: Seq::<u8>::empty(),
                    wanted: crate::stream::BUF_SIZE as nat,
                })
            }),
            final(self).events@ == old(self).events@.push(Event::NewConnection(t)),
            final(self).spec_has(t),
    {
        let token = self.bump_token();
        self.events.push(Event::NewConnection(token));
        self.tokens.push(
            Owned {
                token,
                mode: OwnedMode::Conn(
                    Conn { read_buffer: Stream::default(), write_buffer: Stream::default() },
                ),
            },
        );
        proof {
            assert(self.tokens@[self.tokens@.len() - 1].token == token);
            self.lemma_index_of_unique(token, self.tokens@.len() - 1);
            assert(self.tokens@.subrange(0, old(self).tokens@.len() as int) =~= old(self).tokens@);
        }
        token
    }

    /// Pop the next pending event, if any. The blocking pull loop around
    /// the OS primitive lives in the driver: while this returns nothing,
    /// the driver runs one poll cycle, feeds every outcome back into this
    /// crate, and asks again.
    pub fn next(&mut self) -> (r: Option<Event>)
        ensures
            final(self).tokens == old(self).tokens,
            final(self).last_token == old(self).last_token,
            match r {
                Some(e) => old(self).events@.len() > 0 && e == old(self).events@[0]
                    && final(self).events@ == old(self).events@.skip(1),
                None => old(self).events@.len() == 0 && final(self).events == old(self).events,
            },
    {
        if self.events.len() > 0 {
            let e = self.events.remove(0);
            proof {
                assert(self.events@ =~= old(self).events@.skip(1));
            }
            Some(e)
        } else {
            None
        }
    }

    /// Find the table index of a token.
    pub(crate) fn find(&self, t: Token) -> (r: Option<usize>)
        ensures
            match r {
                Some(i) => i < self.tokens@.len() && self.tokens@[i as int].token == t,
                None => !self.spec_has(t),
            },
    {
        let mut i: usize = 0;
        while i < self.tokens.len()
            invariant
                i <= self.tokens@.len(),
                forall|j: int| 0 <= j < i ==> (#[trigger] self.tokens@[j]).token != t,
            decreases self.tokens@.len() - i,
        {
            if self.tokens[i].token.0 == t.0 {
                return Some(i);
            }
            i = i + 1;
        }
        None
    }

    /// True iff the token names a live connection on which a fill attempt
    /// may be made; the driver's read drain loop re-checks this before each
    /// non-blocking read.
    pub fn wants_read(&self, t: Token) -> (r: bool)
        requires
            self.wf(),
        ensures
            r == (self.spec_has(t) && self.spec_at(t).mode is Conn && conn_of(
                self.spec_at(t),
            ).read_buffer@.do_read()),
    {
        match self.find(t) {
            Some(i) => {
                proof {
                    self.lemma_index_of_unique(t, i as int);
                }
                match &self.tokens[i].mode {
                    OwnedMode::Conn(conn) => conn.read_buffer.do_read(),
                    OwnedMode::Server => false,
                }
            },
            None => false,
        }
    }

    /// The outbound pending bytes of a live connection, where its state
    /// leaves any addressable: the bytes the driver's next non-blocking
    /// write should offer to the socket.
    pub fn write_pending(&self, t: Token) -> (r: Option<&Vec<u8>>)
        requires
            self.wf(),
        ensures
            match r {
                Some(b) => self.spec_has(t) && self.spec_at(t).mode is Conn && conn_of(
                    self.spec_at(t),
                ).write_buffer@.buf() == Some(b@) && b@.len() > 0,
                None => !(self.spec_has(t) && self.spec_at(t).mode is Conn && conn_of(
                    self.spec_at(t),
                ).write_buffer@.buf() is Some && conn_of(
                    self.spec_at(t),
                ).write_buffer@.buf().unwrap().len() > 0),
            },
    {
        match self.find(t) {
            Some(i) => {
                proof {
                    self.lemma_index_of_unique(t, i as int);
                }
                match &self.tokens[i].mode {
                    OwnedMode::Conn(conn) => {
                        match conn.write_buffer.buf() {
                            Some(b) => if b.len() > 0 {
                                Some(b)
                            } else {
                                None
                            },
                            None => None,
                        }
                    },
                    OwnedMode::Server => None,
                }
            },
            None => None,
        }
    }

    /// Apply the outcome of one non-blocking read the driver attempted on
    /// this connection's socket: the inbound direction takes one
    /// `read_next` step, the events that step surfaces are queued, and the
    /// result says whether the edge-triggered drain loop should attempt
    /// another read.
    pub fn do_a_read(&mut self, t: Token, outcome: ReadOutcome) -> (more: bool)
        requires
            old(self).wf(),
            old(self).spec_has(t),
            old(self).spec_at(t).mode is Conn,
            conn_of(old(self).spec_at(t)).read_buffer@.do_read(),
            outcome@ matches ReadOutcomeModel::Data(bytes) ==> bytes.len() > 0,
        ensures
            final(self).wf(),
            final(self).last_token == old(self).last_token,
            final(self).tokens@.len() == old(self).tokens@.len(),
            forall|i: int|
                0 <= i < old(self).tokens@.len() && i != old(self).spec_index_of(t)
                    ==> final(self).tokens@[i] == old(self).tokens@[i],
            ({
                let i = old(self).spec_index_of(t);
                let c0 = conn_of(old(self).tokens@[i]);
                let c1 = conn_of(final(self).tokens@[i]);
                &&& final(self).tokens@[i].token == t
                &&& final(self).tokens@[i].mode is Conn
                &&& c1.read_buffer@ == c0.read_buffer@.read_next(outcome@)
                &&& c1.write_buffer == c0.write_buffer
                &&& final(self).events@ == old(self).events@ + c0.read_buffer@.read_events(
                    outcome@,
                    t,
                )
                &&& more == c0.read_buffer@.read_more(outcome@)
            }),
    {
        let i = match self.find(t) {
            Some(i) => i,
            None => {
                proof {
                    assert(false);
                }
                0
            },
        };
        proof {
            self.lemma_index_of_unique(t, i as int);
        }
        let more: bool;
        let entry = entry_mut(&mut self.tokens, i);
        match &mut entry.mode {
            OwnedMode::Conn(conn) => {
                match outcome {
                    ReadOutcome::Eof => {
                        match &conn.read_buffer.state {
                            StreamState::Normal { .. } => conn.read_buffer.become_draining_close(),
                            _ => conn.read_buffer.totes_done(),
                        }
                        self.events.push(Event::Done(t, Direction::Read));
                        more = false;
                    },
                    ReadOutcome::Data(bytes) => {
                        match conn.read_buffer.buf_mut() {
                            Some(b) => {
                                let ghost pre = b@;
                                b.extend_from_slice(bytes.as_slice());
                                proof {
                                    assert forall|k: int| 0 <= k < b@.len() implies b@[k] == (pre
                                        + bytes@)[k] by {
                                        if k >= pre.len() {
                                            assert(vstd::pervasive::cloned::<u8>(
                                                bytes@[k - pre.len()],
                                                b@[k],
                                            ));
                                        }
                                    }
                                    assert(b@ =~= pre + bytes@);
                                }
                                self.events.push(Event::Data(t));
                            },
                            None => {
                                // force-closed: the chunk is discarded
                            },
                        }
                        more = true;
                    },
                    ReadOutcome::WouldBlock => {
                        more = false;
                    },
                    ReadOutcome::Error => {
                        match &conn.read_buffer.state {
                            StreamState::Normal { .. } => {
                                conn.read_buffer.become_truncating_close();
                                more = true;
                            },
                            _ => {
                                conn.read_buffer.totes_done();
                                more = false;
                            },
                        }
                    },
                }
            },
            OwnedMode::Server => {
                proof {
                    assert(false);
                }
                more = false;
            },
        }
        more
    }

    /// Apply the outcome of one non-blocking write of the full pending
    /// outbound buffer: the outbound direction takes one `write_next` step,
    /// the events that step surfaces are queued, and the result says
    /// whether the edge-triggered drain loop should attempt another write.
    pub fn do_a_write(&mut self, t: Token, outcome: WriteOutcome) -> (more: bool)
        requires
            old(self).wf(),
            old(self).spec_has(t),
            old(self).spec_at(t).mode is Conn,
            conn_of(old(self).spec_at(t)).write_buffer@.buf() is Some,
            conn_of(old(self).spec_at(t)).write_buffer@.buf().unwrap().len() > 0,
            outcome@ matches WriteOutcomeModel::Accepted(n) ==> 1 <= n <= conn_of(
                old(self).spec_at(t),
            ).write_buffer@.buf().unwrap().len(),
        ensures
            final(self).wf(),
            final(self).last_token == old(self).last_token,
            final(self).tokens@.len() == old(self).tokens@.len(),
            forall|i: int|
                0 <= i < old(self).tokens@.len() && i != old(self).spec_index_of(t)
                    ==> final(self).tokens@[i] == old(self).tokens@[i],
            ({
                let i = old(self).spec_index_of(t);
                let c0 = conn_of(old(self).tokens@[i]);
                let c1 = conn_of(final(self).tokens@[i]);
                &&& final(self).tokens@[i].token == t
                &&& final(self).tokens@[i].mode is Conn
                &&& c1.write_buffer@ == c0.write_buffer@.write_next(outcome@)
                &&& c1.read_buffer == c0.read_buffer
                &&& final(self).events@ == old(self).events@ + c0.write_buffer@.write_events(
                    outcome@,
                    t,
                )
                &&& more == c0.write_buffer@.write_more(outcome@)
            }),
    {
        let i = match self.find(t) {
            Some(i) => i,
            None => {
                proof {
                    assert(false);
                }
                0
            },
        };
        proof {
            self.lemma_index_of_unique(t, i as int);
        }
        let more: bool;
        let entry = entry_mut(&mut self.tokens, i);
        match &mut entry.mode {
            OwnedMode::Conn(conn) => {
                match outcome {
                    WriteOutcome::Closed => {
                        conn.write_buffer.totes_done();
                        self.events.push(Event::Done(t, Direction::Write));
                        more = false;
                    },
                    WriteOutcome::Accepted(n) => {
                        let finished: bool;
                        match &mut conn.write_buffer.state {
                            StreamState::Normal { buf, .. } => {
                                let tail = buf.split_off(n);
                                *buf = tail;
                                finished = false;
                            },
                            StreamState::Draining { buf } => {
                                let tail = buf.split_off(n);
                                *buf = tail;
                                finished = buf.len() == 0;
                            },
                            StreamState::AwaitingConfirmation | StreamState::Done => {
                                proof {
                                    assert(false);
                                }
                                finished = false;
                            },
                        }
                        self.events.push(Event::Data(t));
                        if finished {
                            conn.write_buffer.totes_done();
                            self.events.push(Event::Done(t, Direction::Write));
                            more = false;
                        } else {
                            more = true;
                        }
                    },
                    WriteOutcome::WouldBlock => {
                        more = false;
                    },
                    WriteOutcome::Error => {
                        conn.write_buffer.totes_done();
                        more = false;
                    },
                }
            },
            OwnedMode::Server => {
                proof {
                    assert(false);
                }
                more = false;
            },
        }
        more
    }
}

/// The entries that survive a reap: everything that is not a connection
/// with both directions Done.
pub open spec fn spec_live(s: Seq<Owned>) -> Seq<Owned> {
    s.filter(|o: Owned| !o.spec_closeable())
}

/// The tokens of the entries a reap removes: the connections with both
/// directions Done, in table order.
pub open spec fn spec_reaped(s: Seq<Owned>) -> Seq<Token> {
    s.filter(|o: Owned| o.spec_closeable()).map_values(|o: Owned| o.token)
}

/// The readiness interest of one connection entry: its token, whether
/// readable readiness is wanted, whether writable readiness is wanted.
pub open spec fn spec_reg(o: Owned) -> (Token, bool, bool) {
    (o.token, conn_of(o).read_buffer@.read_interest(), conn_of(o).write_buffer@.write_interest())
}

/// The readiness interests of every connection in the table, in order.
pub open spec fn spec_regs(s: Seq<Owned>) -> Seq<(Token, bool, bool)> {
    s.filter(|o: Owned| o.mode is Conn).map_values(|o: Owned| spec_reg(o))
}

/// Extending a prefix by its next element extends its filtered sequence by
/// that element exactly when the predicate holds of it.
proof fn lemma_filter_take_step<A>(s: Seq<A>, k: int, pred: spec_fn(A) -> bool)
    requires
        0 <= k < s.len(),
    ensures
        s.take(k + 1).filter(pred) == if pred(s[k]) {
            s.take(k).filter(pred).push(s[k])
        } else {
            s.take(k).filter(pred)
        },
{
    reveal(Seq::filter);
    assert(s.take(k + 1).drop_last() =~= s.take(k));
    assert(s.take(k + 1).last() == s[k]);
}

impl Net {
    /// Remove every connection whose two directions are both Done, in table
    /// order, and return their tokens so the driver can release and close
    /// the sockets. Nothing else changes: a connection leaves the table in
    /// the cycle strictly after both directions reached Done, never before,
    /// and listeners are never removed.
    pub fn close_some(&mut self) -> (closed: Vec<Token>)
        requires
            old(self).wf(),
        ensures
            final(self).wf(),
            final(self).last_token == old(self).last_token,
            final(self).events == old(self).events,
            final(self).tokens@ == spec_live(old(self).tokens@),
            closed@ == spec_reaped(old(self).tokens@),
    {
        let ghost all = old(self).tokens@;
        let mut rest: Vec<Owned> = Vec::new();
        core::mem::swap(&mut rest, &mut self.tokens);
        let mut kept: Vec<Owned> = Vec::new();
        let mut closed: Vec<Token> = Vec::new();
        let ghost mut k: int = 0;
        while rest.len() > 0
            invariant
                all == old(self).tokens@,
                0 <= k <= all.len(),
                rest@ == all.skip(k),
                kept@ == spec_live(all.take(k)),
                closed@ == spec_reaped(all.take(k)),
                forall|a: int|
                    #![trigger kept@[a]]
                    0 <= a < kept@.len() ==> exists|j: int|
                        0 <= j < k && kept@[a] == #[trigger] all[j],
                forall|a: int, b: int|
                    0 <= a < b < kept@.len() ==> (#[trigger] kept@[a]).token.0 != (
                    #[trigger] kept@[b]).token.0,
                old(self).wf(),
            decreases rest@.len(),
        {
            let o = rest.remove(0);
            proof {
                assert(o == all[k]);
                assert(rest@ =~= all.skip(k + 1));
                lemma_filter_take_step(all, k, |x: Owned| !x.spec_closeable());
                lemma_filter_take_step(all, k, |x: Owned| x.spec_closeable());
            }
            let closeable = match &o.mode {
                OwnedMode::Conn(c) => c.read_buffer.is_done() && c.write_buffer.is_done(),
                OwnedMode::Server => false,
            };
            if closeable {
                closed.push(o.token);
                proof {
                    assert(all.take(k).filter(|x: Owned| x.spec_closeable()).push(
                        all[k],
                    ).map_values(|x: Owned| x.token) =~= spec_reaped(all.take(k)).push(
                        all[k].token,
                    ));
                }
            } else {
                kept.push(o);
                proof {
                    assert forall|a: int| #![trigger kept@[a]] 0 <= a < kept@.len() implies exists|
                        j: int,
                    | 0 <= j < k + 1 && kept@[a] == #[trigger] all[j] by {
                        if a < kept@.len() - 1 {
                            let j = choose|j: int| 0 <= j < k && kept@[a] == #[trigger] all[j];
                            assert(0 <= j < k + 1 && kept@[a] == all[j]);
                        } else {
                            assert(kept@[a] == all[k]);
                        }
                    }
                    assert forall|a: int, b: int| 0 <= a < b < kept@.len() implies (
                    #[trigger] kept@[a]).token.0 != (#[trigger] kept@[b]).token.0 by {
                        if b == kept@.len() - 1 {
                            let j = choose|j: int| 0 <= j < k && kept@[a] == #[trigger] all[j];
                            assert(kept@[a] == all[j]);
                            assert(0 <= j < k < all.len());
                            assert(old(self).tokens@[j].token.0 != old(self).tokens@[k].token.0);
                            assert(all[j].token.0 != all[k].token.0);
                        }
                    }
                }
            }
            proof {
                k = k + 1;
            }
        }
        proof {
            assert(all.take(k) =~= all);
        }
        self.tokens = kept;
        proof {
            assert forall|i: int|
                0 <= i < self.tokens@.len() implies 1 <= (#[trigger] self.tokens@[i]).token.0
                <= self.last_token by {
                let j = choose|j: int| 0 <= j < k && self.tokens@[i] == #[trigger] all[j];
                assert(self.tokens@[i] == all[j]);
            }
        }
        closed
    }

    /// The readiness interests to (re)register with the OS primitive this
    /// cycle, one triple per live connection, in table order: the token,
    /// whether readable readiness is wanted — only while the inbound buffer
    /// is below its capacity threshold (backpressure) or the direction is
    /// force-closed — and whether writable readiness is wanted. Listeners
    /// keep their one-time registration and do not appear.
    pub fn reregister(&self) -> (regs: Vec<(Token, bool, bool)>)
        ensures
            regs@ == spec_regs(self.tokens@),
    {
        let mut regs: Vec<(Token, bool, bool)> = Vec::new();
        let mut i: usize = 0;
        while i < self.tokens.len()
            invariant
                i <= self.tokens@.len(),
                regs@ == spec_regs(self.tokens@.take(i as int)),
            decreases self.tokens@.len() - i,
        {
            proof {
                lemma_filter_take_step(self.tokens@, i as int, |x: Owned| x.mode is Conn);
            }
            match &self.tokens[i].mode {
                OwnedMode::Conn(conn) => {
                    let r = conn.read_buffer.read_interest();
                    let w = conn.write_buffer.write_interest();
                    regs.push((self.tokens[i].token, r, w));
                    proof {
                        assert(self.tokens@.take(i as int).filter(|x: Owned| x.mode is Conn).push(
                            self.tokens@[i as int],
                        ).map_values(|x: Owned| spec_reg(x)) =~= spec_regs(
                            self.tokens@.take(i as int),
                        ).push(spec_reg(self.tokens@[i as int])));
                    }
                },
                OwnedMode::Server => {
                },
            }
            i = i + 1;
        }
        proof {
            assert(self.tokens@.take(self.tokens@.len() as int) =~= self.tokens@);
        }
        regs
    }
}

#[verifier::external_type_specification]
#[verifier::external_body]
pub struct ExIoError(std::io::Error);

/// Relies on std::io::Error::kind: tells the transient would-block
/// condition apart from every other I/O error. Nothing further is claimed
/// of the opaque error value.
#[verifier::external_body]
fn is_would_block(e: &std::io::Error) -> bool {
    match e.kind() {
        std::io::ErrorKind::WouldBlock => true,
        _ => false,
    }
}

/// Collapse the transient would-block condition into an absent value:
/// would-block is not an error, only "no more work this wakeup". A
/// successful result is kept, and every error other than would-block is
/// handed back unchanged.
pub fn block_to_none<T>(res: Result<T, std::io::Error>) -> (r: Result<
    Option<T>,
    std::io::Error,
>)
    ensures
        res matches Ok(o) ==> r matches Ok(ro) && ro == Some(o),
        res matches Err(e) ==> (r matches Ok(ro) && ro is None) || (r matches Err(e2) && e2 == e),
{
    match res {
        Ok(o) => Ok(Some(o)),
        Err(e) => {
            if is_would_block(&e) {
                Ok(None)
            } else {
                Err(e)
            }
        },
    }
}

/// Mutable access to one entry of the resource table.
pub(crate) fn entry_mut(v: &mut Vec<Owned>, i: usize) -> (e: &mut Owned)
    requires
        i < old(v)@.len(),
    ensures
        *e == old(v)@[i as int],
        final(v)@ == old(v)@.update(i as int, *final(e)),
{
    &mut v[i]
}

} // verus!
