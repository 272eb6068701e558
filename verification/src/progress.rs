//! Splitting a child's output into progress lines. `ollama pull` redraws
//! its progress bar with carriage returns, so a line ends at `\n` or `\r`;
//! empty lines are dropped. The splitter is fed one byte at a time, as the
//! bytes arrive.

use vstd::prelude::*;

verus! {

pub open spec fn is_break(b: u8) -> bool {
    b == 10 || b == 13
}

/// The finished chunks and the chunk being filled.
pub type SplitState = (Seq<Seq<u8>>, Seq<u8>);

pub open spec fn split_step(st: SplitState, b: u8) -> SplitState {
    if is_break(b) {
        if st.1.len() == 0 { st } else { (st.0.push(st.1), Seq::empty()) }
    } else {
        (st.0, st.1.push(b))
    }
}

pub open spec fn split_feed(st: SplitState, bs: Seq<u8>) -> SplitState
    decreases bs.len(),
{
    if bs.len() == 0 {
        st
    } else {
        split_step(split_feed(st, bs.drop_last()), bs.last())
    }
}

/// The chunks of a whole stream: what is pending at the end is a chunk too.
pub open spec fn progress_chunks(bs: Seq<u8>) -> Seq<Seq<u8>> {
    let st = split_feed((Seq::empty(), Seq::empty()), bs);
    if st.1.len() == 0 { st.0 } else { st.0.push(st.1) }
}

/// `bs` without its line breaks.
pub open spec fn unbroken(bs: Seq<u8>) -> Seq<u8>
    decreases bs.len(),
{
    if bs.len() == 0 {
        Seq::empty()
    } else if is_break(bs.last()) {
        unbroken(bs.drop_last())
    } else {
        unbroken(bs.drop_last()).push(bs.last())
    }
}

/// The chunks, one after the other.
pub open spec fn joined(cs: Seq<Seq<u8>>) -> Seq<u8>
    decreases cs.len(),
{
    if cs.len() == 0 {
        Seq::empty()
    } else {
        joined(cs.drop_last()) + cs.last()
    }
}

pub open spec fn no_break(c: Seq<u8>) -> bool {
    forall|j: int| 0 <= j < c.len() ==> !is_break(#[trigger] c[j])
}

pub open spec fn good_chunks(cs: Seq<Seq<u8>>) -> bool {
    forall|i: int| 0 <= i < cs.len() ==> #[trigger] cs[i].len() > 0 && no_break(cs[i])
}

/// Splits a byte stream into progress lines as the bytes arrive.
pub struct ProgressSplitter {
    buf: Vec<u8>,
}

impl ProgressSplitter {
    /// The bytes of the line being filled.
    pub closed spec fn pending(self) -> Seq<u8> {
        self.buf@
    }

    pub fn new() -> (r: ProgressSplitter)
        ensures
            r.pending() == Seq::<u8>::empty(),
    {
        ProgressSplitter { buf: Vec::new() }
    }

    /// Takes one byte; returns the line it ends, if it ends a non-empty one.
    pub fn push(&mut self, b: u8) -> (r: Option<Vec<u8>>)
        ensures
            ({
                let st = split_step((Seq::empty(), old(self).pending()), b);
                &&& final(self).pending() == st.1
                &&& match r {
                    Some(c) => st.0 == seq![c@],
                    None => st.0 == Seq::<Seq<u8>>::empty(),
                }
            }),
    {
        if b == 10 || b == 13 {
            if self.buf.len() == 0 {
                None
            } else {
                let mut line: Vec<u8> = Vec::new();
                std::mem::swap(&mut line, &mut self.buf);
                assert(Seq::<Seq<u8>>::empty().push(line@) =~= seq![line@]);
                Some(line)
            }
        } else {
            self.buf.push(b);
            None
        }
    }

    /// The end of the stream: returns the last line, if one is pending.
    pub fn finish(&mut self) -> (r: Option<Vec<u8>>)
        ensures
            final(self).pending() == Seq::<u8>::empty(),
            match r {
                Some(c) => c@ == old(self).pending() && c@.len() > 0,
                None => old(self).pending().len() == 0,
            },
    {
        if self.buf.len() == 0 {
            None
        } else {
            let mut line: Vec<u8> = Vec::new();
            std::mem::swap(&mut line, &mut self.buf);
            Some(line)
        }
    }
}

proof fn lemma_feed_inv(bs: Seq<u8>)
    ensures
        ({
            let st = split_feed((Seq::empty(), Seq::empty()), bs);
            &&& good_chunks(st.0)
            &&& no_break(st.1)
            &&& joined(st.0) + st.1 == unbroken(bs)
        }),
    decreases bs.len(),
{
    if bs.len() == 0 {
        assert(joined(Seq::<Seq<u8>>::empty()) + Seq::<u8>::empty() =~= Seq::<u8>::empty());
    } else {
        let p = bs.drop_last();
        let b = bs.last();
        lemma_feed_inv(p);
        let st = split_feed((Seq::empty(), Seq::empty()), p);
        let nx = split_step(st, b);
        if is_break(b) {
            if st.1.len() == 0 {
                assert(joined(st.0) + st.1 =~= joined(st.0));
            } else {
                assert(nx.0.drop_last() =~= st.0);
                assert(joined(nx.0) + nx.1 =~= joined(st.0) + st.1);
                assert forall|i: int| 0 <= i < nx.0.len() implies #[trigger] nx.0[i].len() > 0 && no_break(nx.0[i]) by {
                    if i < st.0.len() {
                        assert(nx.0[i] == st.0[i]);
                    }
                }
            }
        } else {
            assert(joined(st.0) + st.1.push(b) =~= (joined(st.0) + st.1).push(b));
            assert forall|j: int| 0 <= j < nx.1.len() implies !is_break(#[trigger] nx.1[j]) by {
                if j < st.1.len() {
                    assert(nx.1[j] == st.1[j]);
                }
            }
        }
    }
}

/// Feeding one more byte advances the whole stream's state by that byte
/// alone: the lines `push` returns, collected in order, are the chunks
/// finished so far, and `finish` then adds the last one.
pub proof fn lemma_feed_one(pending: Seq<u8>, done: Seq<Seq<u8>>, bs: Seq<u8>, b: u8)
    requires
        split_feed((Seq::empty(), Seq::empty()), bs) == (done, pending),
    ensures
        split_feed((Seq::empty(), Seq::empty()), bs.push(b))
            == (done + split_step((Seq::empty(), pending), b).0, split_step((Seq::empty(), pending), b).1),
{
    assert(bs.push(b).drop_last() =~= bs);
    if is_break(b) && pending.len() > 0 {
        assert(done.push(pending) =~= done + seq![pending]);
    } else {
        assert(done + Seq::<Seq<u8>>::empty() =~= done);
    }
}

/// A stream's progress lines are never empty, hold no line break, and put
/// back together give the stream without its line breaks.
pub proof fn lemma_chunks_keep_bytes(bs: Seq<u8>)
    ensures
        good_chunks(progress_chunks(bs)),
        joined(progress_chunks(bs)) == unbroken(bs),
{
    lemma_feed_inv(bs);
    let st = split_feed((Seq::empty(), Seq::empty()), bs);
    if st.1.len() == 0 {
        assert(joined(st.0) + st.1 =~= joined(st.0));
    } else {
        let c = st.0.push(st.1);
        assert(c.drop_last() =~= st.0);
        assert forall|i: int| 0 <= i < c.len() implies #[trigger] c[i].len() > 0 && no_break(c[i]) by {
            if i < st.0.len() {
                assert(c[i] == st.0[i]);
            }
        }
    }
}

} // verus!
