//! The library-wide laws, stated and proved over the same spec functions
//! the executable contracts use.
use vstd::prelude::*;

use crate::reactor::spec_live;
use crate::reactor::Net;
use crate::reactor::Owned;
use crate::stream::ReadOutcomeModel;
use crate::stream::StreamModel;
use crate::stream::WriteOutcomeModel;

verus! {

/// The concatenation, in order, of a sequence of chunks.
pub open spec fn concat_chunks(cs: Seq<Seq<u8>>) -> Seq<u8>
    decreases cs.len(),
{
    if cs.len() == 0 {
        Seq::empty()
    } else {
        concat_chunks(cs.drop_last()) + cs.last()
    }
}

/// The inbound state after a whole sequence of read outcomes, each applied
/// as one `read_next` step.
pub open spec fn fold_reads(m: StreamModel, os: Seq<ReadOutcomeModel>) -> StreamModel
    decreases os.len(),
{
    if os.len() == 0 {
        m
    } else {
        fold_reads(m, os.drop_last()).read_next(os.last())
    }
}

/// The chunks the successful reads among a sequence of outcomes carried,
/// in order.
pub open spec fn data_chunks(os: Seq<ReadOutcomeModel>) -> Seq<Seq<u8>>
    decreases os.len(),
{
    if os.len() == 0 {
        Seq::empty()
    } else {
        let rest = data_chunks(os.drop_last());
        match os.last() {
            ReadOutcomeModel::Data(bytes) => rest.push(bytes),
            _ => rest,
        }
    }
}

/// For every sequence of non-blocking read outcomes that succeed or would
/// block, an accepting inbound direction stays accepting, keeps its
/// capacity threshold, and its buffer ends as its initial contents
/// followed by the concatenation, in order, of all successfully-read
/// chunks — nothing is lost, reordered or invented, and a would-block
/// changes nothing. (An unrecoverable error discards the buffer by design,
/// and past the natural end no further read is attempted.)
pub proof fn lemma_reads_accumulate(m: StreamModel, os: Seq<ReadOutcomeModel>)
    requires
        m is Normal,
        forall|i: int|
            0 <= i < os.len() ==> (#[trigger] os[i] is Data || os[i] is WouldBlock),
    ensures
        fold_reads(m, os) == (StreamModel::Normal {
            buf: m.buf().unwrap() + concat_chunks(data_chunks(os)),
            wanted: m.wanted(),
        }),
    decreases os.len(),
{
    if os.len() == 0 {
        assert(m.buf().unwrap() + concat_chunks(data_chunks(os)) =~= m.buf().unwrap());
    } else {
        lemma_reads_accumulate(m, os.drop_last());
        let pre = data_chunks(os.drop_last());
        match os.last() {
            ReadOutcomeModel::Data(bytes) => {
                assert(pre.push(bytes).drop_last() =~= pre);
                assert((m.buf().unwrap() + concat_chunks(pre)) + bytes =~= m.buf().unwrap()
                    + concat_chunks(pre.push(bytes)));
            },
            _ => {
                assert(os.last() is WouldBlock);
            },
        }
    }
}

/// Once a direction is Done it is terminal: no read or write outcome moves
/// it, no bytes can be appended to or removed from it, its buffer is
/// unavailable, and it asks for no readiness.
pub proof fn lemma_done_is_terminal(
    m: StreamModel,
    o: ReadOutcomeModel,
    w: WriteOutcomeModel,
    bytes: Seq<u8>,
)
    requires
        m is Done,
    ensures
        m.read_next(o) is Done,
        m.write_next(w) is Done,
        m.buf() is None,
        m.with_buf(bytes) == m,
        !m.read_interest(),
        !m.write_interest(),
        !m.do_read(),
{
}

/// A connection survives a reap of the resource table exactly as long as
/// one of its directions is not yet Done: the entries that remain are
/// those not closeable, so removal happens in the cycle strictly after
/// both directions reached Done, never before.
pub proof fn lemma_removed_iff_closeable(n: Net)
    ensures
        forall|i: int|
            0 <= i < n.tokens@.len() ==> (spec_live(n.tokens@).contains(#[trigger] n.tokens@[i])
                <==> !n.tokens@[i].spec_closeable()),
{
    broadcast use vstd::seq_lib::group_filter_ensures;

    assert forall|i: int| 0 <= i < n.tokens@.len() implies (spec_live(n.tokens@).contains(
        #[trigger] n.tokens@[i],
    ) <==> !n.tokens@[i].spec_closeable()) by {
        let pred = |o: Owned| !o.spec_closeable();
        if spec_live(n.tokens@).contains(n.tokens@[i]) {
            let j = choose|j: int|
                0 <= j < spec_live(n.tokens@).len() && spec_live(n.tokens@)[j] == n.tokens@[i];
            assert(pred(spec_live(n.tokens@)[j]));
        }
    }
}

/// Backpressure: an accepting inbound direction at or above its capacity
/// threshold asks for no read readiness; after consuming bytes it asks
/// again exactly when the remaining length dropped below the threshold.
pub proof fn lemma_backpressure(m: StreamModel, n: nat)
    requires
        m is Normal,
        m.buf().unwrap().len() >= m.wanted(),
        n <= m.buf().unwrap().len(),
    ensures
        !m.read_interest(),
        m.with_buf(m.buf().unwrap().skip(n as int)).read_interest() <==> m.buf().unwrap().len()
            - n < m.wanted(),
{
}

} // verus!
