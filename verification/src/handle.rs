//! The application's handle onto one connection's buffers.
//!
//! An `Io` is a short-lived capability bound to one connection token. The
//! application obtains it from the reactor for the duration of one
//! operation, inspects or mutates that connection's buffers through it, and
//! lets it go; it is not meant to be retained across reactor cycles. Every
//! operation demands a token that still names a live connection whose
//! relevant buffer is addressable — using a stale token or a force-closed
//! direction is a contract violation, not a runtime condition.
use vstd::prelude::*;

use crate::reactor::conn_of;
use crate::reactor::entry_mut;
use crate::reactor::Conn;
use crate::reactor::Net;
use crate::reactor::Owned;
use crate::reactor::OwnedMode;
use crate::stream::StreamModel;
use crate::stream::StreamState;
use crate::Token;

verus! {

/// A scoped accessor bound to one connection token.
pub struct Io {
    pub token: Token,
}

impl Net {
    /// The handle bound to a connection token.
    pub fn io(&self, token: Token) -> (io: Io)
        ensures
            io.token == token,
    {
        Io { token }
    }
}

/// Shared access to the connection an existing token names.
fn as_conn<'a>(net: &'a Net, t: Token) -> (c: &'a Conn)
    requires
        net.wf(),
        net.spec_has(t),
        net.spec_at(t).mode is Conn,
    ensures
        *c == conn_of(net.spec_at(t)),
{
    let i = match net.find(t) {
        Some(i) => i,
        None => {
            proof {
                assert(false);
            }
            0
        },
    };
    proof {
        net.lemma_index_of_unique(t, i as int);
    }
    match &net.tokens[i].mode {
        OwnedMode::Conn(conn) => conn,
        OwnedMode::Server => vstd::pervasive::unreached(),
    }
}

/// Exclusive access to the connection an existing token names; the rest of
/// the reactor state is untouched.
fn as_conn_mut<'a>(net: &'a mut Net, t: Token) -> (c: &'a mut Conn)
    requires
        old(net).wf(),
        old(net).spec_has(t),
        old(net).spec_at(t).mode is Conn,
    ensures
        *c == conn_of(old(net).spec_at(t)),
        final(net).last_token == old(net).last_token,
        final(net).events == old(net).events,
        final(net).tokens@ == old(net).tokens@.update(
            old(net).spec_index_of(t),
            (Owned { token: t, mode: OwnedMode::Conn(*final(c)) }),
        ),
{
    let i = match net.find(t) {
        Some(i) => i,
        None => {
            proof {
                assert(false);
            }
            0
        },
    };
    proof {
        net.lemma_index_of_unique(t, i as int);
    }
    let entry = entry_mut(&mut net.tokens, i);
    match &mut entry.mode {
        OwnedMode::Conn(conn) => conn,
        OwnedMode::Server => vstd::pervasive::unreached(),
    }
}

impl Io {
    /// The token still names a live connection.
    pub open spec fn is_live_conn(self, net: Net) -> bool {
        net.spec_has(self.token) && net.spec_at(self.token).mode is Conn
    }

    /// The connection this handle is bound to.
    pub open spec fn spec_conn(self, net: Net) -> Conn
        recommends
            self.is_live_conn(net),
    {
        conn_of(net.spec_at(self.token))
    }

    /// A read-only view of the inbound buffer's current contents. Demands a
    /// live connection whose inbound buffer is addressable (neither
    /// force-closed nor finished).
    pub fn buf<'a>(&self, net: &'a Net) -> (r: &'a [u8])
        requires
            net.wf(),
            self.is_live_conn(*net),
            self.spec_conn(*net).read_buffer@.buf() is Some,
        ensures
            r@ == self.spec_conn(*net).read_buffer@.buf().unwrap(),
    {
        let conn = as_conn(net, self.token);
        match conn.read_buffer.buf() {
            Some(b) => b.as_slice(),
            None => vstd::pervasive::unreached(),
        }
    }

    /// Remove exactly the first `len` bytes from the inbound buffer,
    /// preserving the order of the remainder and freeing capacity (which
    /// can re-enable read readiness on the next cycle). Demands an
    /// addressable inbound buffer holding at least `len` bytes.
    pub fn consume(&self, net: &mut Net, len: usize)
        requires
            old(net).wf(),
            self.is_live_conn(*old(net)),
            self.spec_conn(*old(net)).read_buffer@.buf() is Some,
            len <= self.spec_conn(*old(net)).read_buffer@.buf().unwrap().len(),
        ensures
            final(net).wf(),
            final(net).last_token == old(net).last_token,
            final(net).events == old(net).events,
            final(net).tokens@.len() == old(net).tokens@.len(),
            forall|i: int|
                0 <= i < old(net).tokens@.len() && i != old(net).spec_index_of(self.token)
                    ==> final(net).tokens@[i] == old(net).tokens@[i],
            self.is_live_conn(*final(net)),
            final(net).spec_index_of(self.token) == old(net).spec_index_of(self.token),
            self.spec_conn(*final(net)).write_buffer == self.spec_conn(*old(net)).write_buffer,
            self.spec_conn(*final(net)).read_buffer@ == self.spec_conn(
                *old(net),
            ).read_buffer@.with_buf(
                self.spec_conn(*old(net)).read_buffer@.buf().unwrap().skip(len as int),
            ),
    {
        let ghost idx = old(net).spec_index_of(self.token);
        let conn = as_conn_mut(net, self.token);
        match &mut conn.read_buffer.state {
            StreamState::Normal { buf, .. } => {
                let tail = buf.split_off(len);
                *buf = tail;
            },
            StreamState::Draining { buf } => {
                let tail = buf.split_off(len);
                *buf = tail;
            },
            StreamState::AwaitingConfirmation | StreamState::Done => {
                proof {
                    assert(false);
                }
            },
        }
        proof {
            net.lemma_index_of_unique(self.token, idx);
        }
    }

    /// Append bytes to the outbound buffer, unconditionally: outbound
    /// buffering is deliberately unbounded, so callers that write faster
    /// than the peer drains accumulate memory without limit; callers
    /// needing bounded egress must impose their own write throttling.
    /// Demands an addressable outbound buffer (not force-closed, not
    /// finished).
    pub fn write(&self, net: &mut Net, data: &[u8])
        requires
            old(net).wf(),
            self.is_live_conn(*old(net)),
            self.spec_conn(*old(net)).write_buffer@.buf() is Some,
        ensures
            final(net).wf(),
            final(net).last_token == old(net).last_token,
            final(net).events == old(net).events,
            final(net).tokens@.len() == old(net).tokens@.len(),
            forall|i: int|
                0 <= i < old(net).tokens@.len() && i != old(net).spec_index_of(self.token)
                    ==> final(net).tokens@[i] == old(net).tokens@[i],
            self.is_live_conn(*final(net)),
            final(net).spec_index_of(self.token) == old(net).spec_index_of(self.token),
            self.spec_conn(*final(net)).read_buffer == self.spec_conn(*old(net)).read_buffer,
            self.spec_conn(*final(net)).write_buffer@ == self.spec_conn(
                *old(net),
            ).write_buffer@.with_buf(
                self.spec_conn(*old(net)).write_buffer@.buf().unwrap() + data@,
            ),
    {
        let ghost idx = old(net).spec_index_of(self.token);
        let conn = as_conn_mut(net, self.token);
        match &mut conn.write_buffer.state {
            StreamState::Normal { buf, .. } => {
                let ghost pre = buf@;
                buf.extend_from_slice(data);
                proof {
                    lemma_extend_is_concat(pre, data@, buf@);
                }
            },
            StreamState::Draining { buf } => {
                let ghost pre = buf@;
                buf.extend_from_slice(data);
                proof {
                    lemma_extend_is_concat(pre, data@, buf@);
                }
            },
            StreamState::AwaitingConfirmation | StreamState::Done => {
                proof {
                    assert(false);
                }
            },
        }
        proof {
            net.lemma_index_of_unique(self.token, idx);
        }
    }

    /// Close the connection from the application's side: the inbound
    /// direction is force-closed (unread bytes are discarded, the natural
    /// end is still awaited), the outbound direction drains (bytes already
    /// queued are still flushed, then it finishes). Closing twice is a
    /// contract violation, so both directions must still be in a state the
    /// transitions accept.
    pub fn close(&self, net: &mut Net)
        requires
            old(net).wf(),
            self.is_live_conn(*old(net)),
            self.spec_conn(*old(net)).read_buffer@ is Normal || self.spec_conn(
                *old(net),
            ).read_buffer@ is Draining,
            self.spec_conn(*old(net)).write_buffer@ is Normal,
        ensures
            final(net).wf(),
            final(net).last_token == old(net).last_token,
            final(net).events == old(net).events,
            final(net).tokens@.len() == old(net).tokens@.len(),
            forall|i: int|
                0 <= i < old(net).tokens@.len() && i != old(net).spec_index_of(self.token)
                    ==> final(net).tokens@[i] == old(net).tokens@[i],
            self.is_live_conn(*final(net)),
            final(net).spec_index_of(self.token) == old(net).spec_index_of(self.token),
            self.spec_conn(*final(net)).read_buffer@ == StreamModel::AwaitingConfirmation,
            self.spec_conn(*final(net)).write_buffer@ == (StreamModel::Draining {
                buf: self.spec_conn(*old(net)).write_buffer@.buf().unwrap(),
            }),
    {
        let ghost idx = old(net).spec_index_of(self.token);
        let conn = as_conn_mut(net, self.token);
        conn.read_buffer.become_truncating_close();
        conn.write_buffer.become_draining_close();
        proof {
            net.lemma_index_of_unique(self.token, idx);
        }
    }
}

/// Appending a byte slice appends exactly its bytes: the element-wise
/// clones a `Vec` extension makes of plain bytes are the bytes themselves.
proof fn lemma_extend_is_concat(pre: Seq<u8>, data: Seq<u8>, post: Seq<u8>)
    requires
        post.len() == pre.len() + data.len(),
        forall|i: int| 0 <= i < pre.len() ==> #[trigger] post[i] == pre[i],
        forall|i: int|
            pre.len() <= i < post.len() ==> vstd::pervasive::cloned::<u8>(
                data[i - pre.len()],
                #[trigger] post[i],
            ),
    ensures
        post == pre + data,
{
    assert forall|i: int| 0 <= i < post.len() implies post[i] == (pre + data)[i] by {
        if i >= pre.len() {
            assert(vstd::pervasive::cloned::<u8>(data[i - pre.len()], post[i]));
        }
    }
    assert(post =~= pre + data);
}

} // verus!
