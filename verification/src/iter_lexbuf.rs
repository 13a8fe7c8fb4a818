//! The growable buffer over an iterator, under its lexing name.

use vstd::prelude::*;
use vstd::std_specs::iter::IteratorSpec;

use crate::hlbuf::HlBuf;
use crate::iter_hlbuf::IterHlBuf;
use crate::tape::Tape;

verus! {

/// An `IterLexBuf` is a lexing buffer built upon an iterator: an
/// [`IterHlBuf`] whose highlight is the current token.
pub struct IterLexBuf<I> where I: Iterator, I::Item: Copy {
    inner: IterHlBuf<I>,
}

impl<I> IterLexBuf<I> where I: Iterator, I::Item: Copy {
    /// The iterator the buffer pulls from, in its current state.
    pub closed spec fn source(&self) -> I {
        self.inner.source()
    }

    /// The item that stands for the end of the iterator.
    pub closed spec fn endind(&self) -> I::Item {
        self.inner.endind()
    }

    /// Every item pulled since the last `move_on`, oldest first.
    pub closed spec fn cache(&self) -> Seq<I::Item> {
        self.inner.cache()
    }

    /// How many of the cached items lie left of the tail.
    pub closed spec fn origin(&self) -> nat {
        self.inner.origin()
    }

    /// The cache holds what `shrink` left behind, then the token, then the
    /// items right of the head.
    pub proof fn lemma_layout(&self)
        requires
            self.wf(),
        ensures
            self.origin() <= self.cache().len(),
            self.cache().skip(self.origin() as int) == self.tape().held(),
    {
        self.inner.lemma_layout();
    }

    /// Builds a new `IterLexBuf` upon `iter` with end indicator `ind`.
    /// Nothing is pulled yet.
    pub fn new(iter: I, ind: I::Item) -> (b: IterLexBuf<I>)
        ensures
            b.wf(),
            b.tape() == Tape::<I::Item>::blank(),
            b.source() == iter,
            b.endind() == ind,
            b.cache() == Seq::<I::Item>::empty(),
            b.origin() == 0,
    {
        IterLexBuf { inner: IterHlBuf::new(iter, ind) }
    }

    /// The end indicator the buffer was built with.
    pub fn get_endind(&self) -> (ind: I::Item)
        ensures
            ind == self.endind(),
    {
        self.inner.get_endind()
    }

    /// Number of items in the cache.
    pub fn cache_len(&self) -> (n: usize)
        ensures
            n == self.cache().len(),
    {
        self.inner.cache_len()
    }
}

impl<I> HlBuf for IterLexBuf<I> where I: Iterator, I::Item: Copy {
    type Content = I::Item;

    closed spec fn wf(&self) -> bool {
        self.inner.wf()
    }

    closed spec fn tape(&self) -> Tape<I::Item> {
        self.inner.tape()
    }

    open spec fn capacity() -> Option<nat> {
        None
    }

    open spec fn keeps_ahead() -> bool {
        false
    }

    /// A cached item is handed out without touching the iterator. With
    /// nothing cached, one item is pulled, or the end indicator taken where
    /// the iterator has none, and appended to the cache.
    fn get(&mut self) -> (c: I::Item)
        ensures
            old(self).tape().got_one(final(self).tape(), c),
            final(self).endind() == old(self).endind(),
            final(self).origin() == old(self).origin(),
            old(self).tape().ahead.len() > 0 ==> {
                &&& final(self).source() == old(self).source()
                &&& final(self).cache() == old(self).cache()
            },
            old(self).tape().ahead.len() == 0 ==> final(self).cache() == old(self).cache().push(c),
            old(self).tape().ahead.len() == 0 && old(self).source().obeys_prophetic_iter_laws() ==> {
                let left = old(self).source().remaining();
                &&& final(self).source().obeys_prophetic_iter_laws()
                &&& left.len() > 0 ==> c == left[0] && final(self).source().remaining()
                    == left.drop_first()
                &&& left.len() == 0 ==> c == old(self).endind() && final(self).source().remaining()
                    == left
            },
    {
        self.inner.get()
    }

    fn unget(&mut self)
        ensures
            final(self).source() == old(self).source(),
            final(self).endind() == old(self).endind(),
            final(self).cache() == old(self).cache(),
            final(self).origin() == old(self).origin(),
    {
        self.inner.unget()
    }

    /// The whole cache is dropped with the token, the items right of the
    /// head included: the next `get` pulls from the iterator.
    fn move_on(&mut self)
        ensures
            final(self).source() == old(self).source(),
            final(self).endind() == old(self).endind(),
            final(self).cache() == Seq::<I::Item>::empty(),
            final(self).origin() == 0,
    {
        self.inner.move_on()
    }

    fn give_up(&mut self)
        ensures
            final(self).source() == old(self).source(),
            final(self).endind() == old(self).endind(),
            final(self).cache() == old(self).cache(),
            final(self).origin() == old(self).origin(),
    {
        self.inner.give_up()
    }

    fn get_highlight(&self) -> (v: Vec<I::Item>) {
        self.inner.get_highlight()
    }

    fn validate(&mut self) -> (v: Vec<I::Item>)
        ensures
            final(self).source() == old(self).source(),
            final(self).endind() == old(self).endind(),
            final(self).cache() == Seq::<I::Item>::empty(),
            final(self).origin() == 0,
    {
        let res = self.get_highlight();
        self.move_on();
        res
    }

    /// The item that leaves the token stays in the cache, out of reach.
    fn shrink(&mut self)
        ensures
            final(self).source() == old(self).source(),
            final(self).endind() == old(self).endind(),
            final(self).cache() == old(self).cache(),
            final(self).origin() == old(self).origin() + 1,
    {
        self.inner.shrink()
    }

    fn highlight_len(&self) -> (n: usize) {
        self.inner.highlight_len()
    }

    fn has_room(&self) -> (b: bool) {
        true
    }
}

} // verus!
