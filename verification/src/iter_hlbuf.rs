//! The growable highlight buffer over an iterator.

use vstd::prelude::*;
use vstd::std_specs::iter::IteratorSpec;

use crate::hlbuf::HlBuf;
use crate::tape::{lemma_got_one_is_got, Tape};

verus! {

/// An `IterHlBuf` is a `HlBuf` built upon an iterator.
///
/// Its internal buffer has no limit: every item pulled since the last
/// `move_on` stays cached. Where the iterator has no further item, the end
/// indicator is written on the tape in its place, once for every `get`
/// that finds nothing cached.
pub struct IterHlBuf<I> where I: Iterator, I::Item: Copy {
    // highlight length
    hlen: usize,
    // highlight offset
    hoffset: usize,
    // every item pulled since the last `move_on`
    buf: Vec<I::Item>,
    // end indicator
    end_ind: I::Item,
    // inner iterator
    iter: I,
}

impl<I> IterHlBuf<I> where I: Iterator, I::Item: Copy {
    /// The iterator the buffer pulls from, in its current state.
    pub closed spec fn source(&self) -> I {
        self.iter
    }

    /// The item that stands for the end of the iterator.
    pub closed spec fn endind(&self) -> I::Item {
        self.end_ind
    }

    /// Every item pulled since the last `move_on`, oldest first.
    pub closed spec fn cache(&self) -> Seq<I::Item> {
        self.buf@
    }

    /// How many of the cached items lie left of the tail.
    pub closed spec fn origin(&self) -> nat {
        self.hoffset as nat
    }

    /// The cache holds what `shrink` left behind, then the highlight, then
    /// the items right of the head.
    pub proof fn lemma_layout(&self)
        requires
            self.wf(),
        ensures
            self.origin() <= self.cache().len(),
            self.cache().skip(self.origin() as int) == self.tape().held(),
    {
        assert(self.cache().skip(self.origin() as int) =~= self.tape().held());
    }

    /// Builds a new `IterHlBuf` upon `iter` with end indicator `ind`.
    /// Nothing is pulled yet.
    pub fn new(iter: I, ind: I::Item) -> (b: IterHlBuf<I>)
        ensures
            b.wf(),
            b.tape() == Tape::<I::Item>::blank(),
            b.source() == iter,
            b.endind() == ind,
            b.cache() == Seq::<I::Item>::empty(),
            b.origin() == 0,
    {
        let b = IterHlBuf { hlen: 0, hoffset: 0, buf: Vec::new(), end_ind: ind, iter: iter };
        proof {
            assert(b.tape() =~= Tape::<I::Item>::blank());
        }
        b
    }

    /// The end indicator the buffer was built with.
    pub fn get_endind(&self) -> (ind: I::Item)
        ensures
            ind == self.endind(),
    {
        self.end_ind
    }

    /// Number of items in the cache.
    pub fn cache_len(&self) -> (n: usize)
        ensures
            n == self.cache().len(),
    {
        self.buf.len()
    }
}

impl<I> HlBuf for IterHlBuf<I> where I: Iterator, I::Item: Copy {
    type Content = I::Item;

    closed spec fn wf(&self) -> bool {
        self.hoffset + self.hlen <= self.buf@.len() <= usize::MAX
    }

    closed spec fn tape(&self) -> Tape<I::Item> {
        Tape {
            highlight: self.buf@.subrange(self.hoffset as int, self.hoffset + self.hlen),
            ahead: self.buf@.skip(self.hoffset + self.hlen),
        }
    }

    open spec fn capacity() -> Option<nat> {
        None
    }

    open spec fn keeps_ahead() -> bool {
        false
    }

    /// A cached item is handed out without touching the iterator. With
    /// nothing cached, one item is pulled, or the end indicator taken where
    /// the iterator has none, and appended to the cache.
    fn get(&mut self) -> (c: I::Item)
        ensures
            old(self).tape().got_one(final(self).tape(), c),
            final(self).endind() == old(self).endind(),
            final(self).origin() == old(self).origin(),
            old(self).tape().ahead.len() > 0 ==> {
                &&& final(self).source() == old(self).source()
                &&& final(self).cache() == old(self).cache()
            },
            old(self).tape().ahead.len() == 0 ==> final(self).cache() == old(self).cache().push(c),
            old(self).tape().ahead.len() == 0 && old(self).source().obeys_prophetic_iter_laws() ==> {
                let left = old(self).source().remaining();
                &&& final(self).source().obeys_prophetic_iter_laws()
                &&& left.len() > 0 ==> c == left[0] && final(self).source().remaining()
                    == left.drop_first()
                &&& left.len() == 0 ==> c == old(self).endind() && final(self).source().remaining()
                    == left
            },
    {
        let c = if self.hoffset + self.hlen == self.buf.len() {
            let n = self.iter.next();
            let x = match n {
                None => self.end_ind,
                Some(x) => x,
            };
            self.buf.push(x);
            // the highlight now reaches the end of the cache
            self.hlen = self.buf.len() - self.hoffset;
            x
        } else {
            self.hlen += 1;
            self.buf[self.hoffset + self.hlen - 1]
        };
        proof {
            let t = old(self).tape();
            if t.ahead.len() > 0 {
                assert(self.tape().highlight =~= t.advance().highlight);
                assert(self.tape().ahead =~= t.advance().ahead);
            } else {
                assert(self.tape().highlight =~= t.feed(seq![c]).advance().highlight);
                assert(self.tape().ahead =~= t.feed(seq![c]).advance().ahead);
            }
            lemma_got_one_is_got(t, self.tape(), c);
        }
        c
    }

    fn unget(&mut self)
        ensures
            final(self).source() == old(self).source(),
            final(self).endind() == old(self).endind(),
            final(self).cache() == old(self).cache(),
            final(self).origin() == old(self).origin(),
    {
        self.hlen -= 1;
        proof {
            assert(self.tape().highlight =~= old(self).tape().unget().highlight);
            assert(self.tape().ahead =~= old(self).tape().unget().ahead);
        }
    }

    /// The whole cache is dropped with the highlight, the items right of
    /// the head included: the next `get` pulls from the iterator.
    fn move_on(&mut self)
        ensures
            final(self).source() == old(self).source(),
            final(self).endind() == old(self).endind(),
            final(self).cache() == Seq::<I::Item>::empty(),
            final(self).origin() == 0,
    {
        self.hlen = 0;
        self.hoffset = 0;
        self.buf.clear();
        proof {
            assert(self.tape() =~= Tape::<I::Item>::blank());
        }
    }

    fn give_up(&mut self)
        ensures
            final(self).source() == old(self).source(),
            final(self).endind() == old(self).endind(),
            final(self).cache() == old(self).cache(),
            final(self).origin() == old(self).origin(),
    {
        self.hlen = 0;
        proof {
            assert(self.tape().highlight =~= Seq::<I::Item>::empty());
            assert(self.tape().ahead =~= old(self).tape().give_up().ahead);
        }
    }

    fn get_highlight(&self) -> (v: Vec<I::Item>) {
        let mut v: Vec<I::Item> = Vec::new();
        let end: usize = self.hoffset + self.hlen;
        let mut i: usize = self.hoffset;
        while i < end
            invariant
                self.hoffset <= i <= end,
                end == self.hoffset + self.hlen,
                end <= self.buf@.len(),
                v@ == self.buf@.subrange(self.hoffset as int, i as int),
            decreases end - i,
        {
            v.push(self.buf[i]);
            i += 1;
            assert(v@ =~= self.buf@.subrange(self.hoffset as int, i as int));
        }
        v
    }

    fn validate(&mut self) -> (v: Vec<I::Item>)
        ensures
            final(self).source() == old(self).source(),
            final(self).endind() == old(self).endind(),
            final(self).cache() == Seq::<I::Item>::empty(),
            final(self).origin() == 0,
    {
        let res = self.get_highlight();
        self.move_on();
        res
    }

    /// The item that leaves the highlight stays in the cache, out of
    /// reach.
    fn shrink(&mut self)
        ensures
            final(self).source() == old(self).source(),
            final(self).endind() == old(self).endind(),
            final(self).cache() == old(self).cache(),
            final(self).origin() == old(self).origin() + 1,
    {
        self.hlen -= 1;
        self.hoffset += 1;
        proof {
            assert(self.tape().highlight =~= old(self).tape().shrink().highlight);
            assert(self.tape().ahead =~= old(self).tape().ahead);
        }
    }

    fn highlight_len(&self) -> (n: usize) {
        self.hlen
    }

    fn has_room(&self) -> (b: bool) {
        true
    }
}

} // verus!
