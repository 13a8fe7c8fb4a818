//! The fixed-capacity highlight buffer over a byte source.

use vstd::prelude::*;

use crate::hlbuf::HlBuf;
use crate::source::ByteSource;
use crate::tape::Tape;
use crate::{is_drained, is_get, is_refill, LexBuf, BUFSIZE};

verus! {

/// A `ReadHlBuf` is a `HlBuf` built upon a byte source.
///
/// It buffers what it reads in an array of [`BUFSIZE`] bytes and provides
/// the highlighting operations on it. Head and tail can never be more than
/// `BUFSIZE` cells apart.
pub struct ReadHlBuf<T: ByteSource> {
    inner: LexBuf<T>,
}

impl<T: ByteSource> ReadHlBuf<T> {
    /// The source the buffer reads from, in its current state.
    pub closed spec fn source(&self) -> T {
        self.inner.source()
    }

    /// The source has run dry and only zeros are buffered.
    pub open spec fn drained(&self) -> bool {
        is_drained(self.tape(), self.source())
    }

    /// What is held never exceeds the capacity.
    pub proof fn lemma_fits(&self)
        requires
            self.wf(),
        ensures
            self.tape().highlight.len() + self.tape().ahead.len() <= BUFSIZE,
    {
        self.inner.lemma_fits();
    }

    /// Takes a source and builds a highlight buffer with an empty highlight
    /// over it. The array is filled from the source right away.
    pub fn new(r: T) -> (b: ReadHlBuf<T>)
        requires
            r.inv(),
        ensures
            b.wf(),
            is_refill(Seq::empty(), r, b.tape(), b.source()),
    {
        ReadHlBuf { inner: LexBuf::new(r) }
    }

    /// Behaves like `get`, but returns the byte as a `char` to ease later
    /// matching.
    pub fn get_char(&mut self) -> (ch: char)
        requires
            old(self).wf(),
            old(self).tape().can_get(Some(BUFSIZE as nat)),
        ensures
            final(self).wf(),
            ch as u32 <= 255,
            is_get(
                old(self).tape(),
                old(self).source(),
                final(self).tape(),
                final(self).source(),
                ch as u8,
            ),
            old(self).drained() ==> ch as u8 == 0 && final(self).drained(),
    {
        self.inner.get_char()
    }
}

impl<T: ByteSource> HlBuf for ReadHlBuf<T> {
    type Content = u8;

    closed spec fn wf(&self) -> bool {
        self.inner.wf()
    }

    closed spec fn tape(&self) -> Tape<u8> {
        self.inner.tape()
    }

    open spec fn capacity() -> Option<nat> {
        Some(BUFSIZE as nat)
    }

    open spec fn keeps_ahead() -> bool {
        true
    }

    fn get(&mut self) -> (c: u8)
        ensures
            is_get(old(self).tape(), old(self).source(), final(self).tape(), final(self).source(), c),
            old(self).drained() ==> c == 0 && final(self).drained(),
    {
        self.inner.get()
    }

    fn unget(&mut self)
        ensures
            final(self).source() == old(self).source(),
    {
        self.inner.unget()
    }

    fn move_on(&mut self)
        ensures
            final(self).source() == old(self).source(),
    {
        self.inner.move_on()
    }

    fn give_up(&mut self)
        ensures
            final(self).source() == old(self).source(),
    {
        self.inner.give_up()
    }

    fn get_highlight(&self) -> (v: Vec<u8>) {
        self.inner.get_token()
    }

    fn validate(&mut self) -> (v: Vec<u8>)
        ensures
            final(self).source() == old(self).source(),
    {
        let res = self.get_highlight();
        self.move_on();
        res
    }

    fn shrink(&mut self)
        ensures
            final(self).source() == old(self).source(),
    {
        self.inner.shrink()
    }

    fn highlight_len(&self) -> (n: usize) {
        self.inner.token_len()
    }

    fn has_room(&self) -> (b: bool) {
        self.inner.has_room()
    }
}

} // verus!
