//! Lexing buffers: buffers with a notion of *current token*.
//!
//! A buffer is built over a source of items and shows it as a read-only
//! tape with two cursors, *tail* and *head*, that delimit the current token
//! (or highlight) `[tail, head)`. `get` extends the token to the right,
//! `unget` takes the last item back, `move_on` commits the token and
//! `give_up` drops it for re-reading.
//!
//! [`LexBuf`] is the fixed-capacity buffer over a [`source::ByteSource`].
//! The [`hlbuf::HlBuf`] trait states the operations once for all buffers;
//! [`read_hlbuf::ReadHlBuf`] and [`iter_hlbuf::IterHlBuf`] implement it
//! over a byte source and over an iterator, and
//! [`read_lexbuf::ReadLexBuf`] and [`iter_lexbuf::IterLexBuf`] are the same
//! two buffers for those who speak of tokens. [`hlbuf::HlIter`] walks a
//! buffer up to the end of its source.
//!
//! Every contract is stated over [`tape::Tape`], the mathematical picture
//! of a buffer, and the laws that tie the operations together are proved
//! there.

use vstd::prelude::*;

pub mod hlbuf;
pub mod iter_hlbuf;
pub mod iter_lexbuf;
pub mod read_hlbuf;
pub mod read_lexbuf;
pub mod source;
pub mod tape;

pub use crate::hlbuf::{HlBuf, HlError, HlIter};
pub use crate::iter_hlbuf::IterHlBuf;
pub use crate::iter_lexbuf::IterLexBuf;
pub use crate::read_hlbuf::ReadHlBuf;
pub use crate::read_lexbuf::ReadLexBuf;
pub use crate::source::{ByteSource, SliceSource};
pub use crate::tape::Tape;

use crate::source::{is_read, padded, zeros};

verus! {

/// Number of bytes a fixed-capacity buffer holds. The current token can
/// never be longer than this.
pub const BUFSIZE: usize = 4096;

/// What one refill of a fixed-capacity buffer does: the source, asked for
/// as many bytes as the array has room for behind the highlight `kept`,
/// goes from `s0` to `s1`, and what it delivers, padded with zeros to that
/// room, is the read-ahead of the tape `t1`.
pub open spec fn is_refill<S: ByteSource>(kept: Seq<u8>, s0: S, t1: Tape<u8>, s1: S) -> bool {
    let room = (BUFSIZE - kept.len()) as nat;
    exists|data: Seq<u8>|
        {
            &&& #[trigger] is_read(s0, s1, data, room)
            &&& t1 == (Tape { highlight: kept, ahead: padded(data, room) })
        }
}

/// What one `get` on a fixed-capacity buffer does to tape and source: they
/// go from `t0` and `s0` to `t1` and `s1`, and `c` is returned.
///
/// A buffered byte is handed out and the source is left alone. With nothing
/// buffered, the buffer is refilled and the first byte of the new
/// read-ahead is handed out.
pub open spec fn is_get<S: ByteSource>(t0: Tape<u8>, s0: S, t1: Tape<u8>, s1: S, c: u8) -> bool {
    let room = (BUFSIZE - t0.highlight.len()) as nat;
    &&& t0.got(t1, c)
    &&& t0.ahead.len() > 0 ==> s1 == s0
    &&& t0.ahead.len() == 0 ==> exists|data: Seq<u8>|
        {
            &&& #[trigger] is_read(s0, s1, data, room)
            &&& t1 == t0.feed(padded(data, room)).advance()
        }
}

/// The source has run dry and only zeros are buffered: from here on the
/// tape is zeros.
pub open spec fn is_drained<S: ByteSource>(t: Tape<u8>, s: S) -> bool {
    &&& s.exhausted()
    &&& t.ahead == zeros(t.ahead.len())
}

/// A source that has run dry stays so, and the first `get` that has to
/// refill from it finds nothing but zeros.
pub proof fn lemma_get_on_dry_source<S: ByteSource>(
    t0: Tape<u8>,
    s0: S,
    t1: Tape<u8>,
    s1: S,
    c: u8,
)
    requires
        is_get(t0, s0, t1, s1, c),
        s0.exhausted(),
        t0.can_get(Some(BUFSIZE as nat)),
    ensures
        s1.exhausted(),
        t0.ahead.len() == 0 ==> c == 0 && is_drained(t1, s1),
{
    if t0.ahead.len() == 0 {
        assert(t0.ahead =~= zeros(0));
        lemma_get_after_end(t0, s0, t1, s1, c);
    }
}

/// Once the source has run dry and the buffered bytes are used up, every
/// `get` returns zero, and the next one will again.
pub proof fn lemma_get_after_end<S: ByteSource>(t0: Tape<u8>, s0: S, t1: Tape<u8>, s1: S, c: u8)
    requires
        is_get(t0, s0, t1, s1, c),
        is_drained(t0, s0),
        t0.can_get(Some(BUFSIZE as nat)),
    ensures
        c == 0,
        is_drained(t1, s1),
{
    if t0.ahead.len() == 0 {
        let room = (BUFSIZE - t0.highlight.len()) as nat;
        let data = choose|data: Seq<u8>|
            {
                &&& #[trigger] is_read(s0, s1, data, room)
                &&& t1 == t0.feed(padded(data, room)).advance()
            };
        let fed = t0.feed(padded(data, room));
        assert(data.len() == 0);
        assert(fed.ahead =~= zeros(room));
        assert(t1.highlight.last() == fed.ahead[0]);
    }
    assert(t1.highlight.last() == c);
    assert(t1.ahead =~= zeros(t1.ahead.len()));
}

/// A lexing buffer of [`BUFSIZE`] bytes over a byte source.
///
/// The tape shows the bytes of the source in the order it delivers them.
/// Whenever the source delivers less than it was asked for, the cells that
/// stay empty are filled with zeros, so a source that has run dry reads as
/// zeros without end.
pub struct LexBuf<T: ByteSource> {
    // reader upon which the buffer is built
    r: T,
    // rolling window over the source
    buf: [u8; BUFSIZE],
    // beginning of the current token
    tail: usize,
    // next byte to be read
    head: usize,
}

impl<T: ByteSource> LexBuf<T> {
    /// The cursors are in order and inside the array, and the source is in
    /// a state it can be read from.
    pub closed spec fn wf(&self) -> bool {
        &&& self.tail <= self.head <= BUFSIZE
        &&& self.r.inv()
    }

    /// The current token and the buffered bytes right of it.
    pub closed spec fn tape(&self) -> Tape<u8> {
        Tape {
            highlight: self.buf@.subrange(self.tail as int, self.head as int),
            ahead: self.buf@.subrange(self.head as int, BUFSIZE as int),
        }
    }

    /// The source the buffer reads from, in its current state.
    pub closed spec fn source(&self) -> T {
        self.r
    }

    /// The source has run dry and only zeros are buffered.
    pub open spec fn drained(&self) -> bool {
        is_drained(self.tape(), self.source())
    }

    /// What is held never exceeds the capacity.
    pub proof fn lemma_fits(&self)
        requires
            self.wf(),
        ensures
            self.tape().highlight.len() + self.tape().ahead.len() <= BUFSIZE,
    {
    }

    /// Takes a source and builds a lexing buffer with an empty token over
    /// it. The array is filled from the source right away.
    pub fn new(r: T) -> (b: LexBuf<T>)
        requires
            r.inv(),
        ensures
            b.wf(),
            is_refill(Seq::empty(), r, b.tape(), b.source()),
    {
        let mut new_buf = LexBuf { r: r, tail: 0, head: 0, buf: [0;BUFSIZE] };
        assert(new_buf.tape().highlight =~= Seq::empty());
        new_buf.fetch();
        new_buf
    }

    /// Buffers new data: slides the current token to the front of the
    /// array, fills the cells behind it from the source and pads with zeros
    /// what the source left empty.
    fn fetch(&mut self)
        requires
            old(self).wf(),
            old(self).tape().highlight.len() < BUFSIZE,
        ensures
            final(self).wf(),
            final(self).head < BUFSIZE,
            is_refill(
                old(self).tape().highlight,
                old(self).source(),
                final(self).tape(),
                final(self).source(),
            ),
    {
        let keep_size: usize = self.head - self.tail;
        let mut i: usize = 0;
        while i < keep_size
            invariant
                self.tail <= self.head <= BUFSIZE,
                keep_size == self.head - self.tail,
                i <= keep_size,
                self.r == old(self).r,
                self.tail == old(self).tail,
                self.head == old(self).head,
                forall|j: int| 0 <= j < i ==> self.buf@[j] == old(self).buf@[self.tail + j],
                forall|j: int| self.tail + i <= j < BUFSIZE ==> self.buf@[j] == old(self).buf@[j],
            decreases keep_size - i,
        {
            let b = self.buf[self.tail + i];
            self.buf[i] = b;
            i += 1;
        }
        let (_kept, free) = self.buf.split_at_mut(keep_size);
        let n: usize = self.r.read(free);
        let ghost data = free@.take(n as int);
        assert(data =~= self.buf@.subrange(keep_size as int, keep_size + n));
        let mut k: usize = keep_size + n;
        while k < BUFSIZE
            invariant
                keep_size + n <= k <= BUFSIZE,
                old(self).tail <= old(self).head <= BUFSIZE,
                keep_size == old(self).head - old(self).tail,
                self.r.inv(),
                old(self).r.exhausted() ==> n == 0 && self.r.exhausted(),
                old(self).r.reads(&self.r, data, (BUFSIZE - keep_size) as nat),
                data == self.buf@.subrange(keep_size as int, keep_size + n),
                forall|j: int|
                    0 <= j < keep_size ==> self.buf@[j] == old(self).buf@[old(self).tail + j],
                forall|j: int| keep_size + n <= j < k ==> self.buf@[j] == 0u8,
            decreases BUFSIZE - k,
        {
            self.buf[k] = 0;
            k += 1;
        }
        self.head = keep_size;
        self.tail = 0;
        proof {
            let room = (BUFSIZE - keep_size) as nat;
            assert(self.tape().highlight =~= old(self).tape().highlight);
            assert(self.tape().ahead =~= padded(data, room));
            assert(is_read(old(self).r, self.r, data, room));
        }
    }

    /// Returns the next unread byte and moves the head forward, adding the
    /// byte to the current token.
    ///
    /// A buffered byte is handed out without touching the source. With
    /// nothing buffered, the array is refilled from the source first; the
    /// token then has to be shorter than the array.
    pub fn get(&mut self) -> (c: u8)
        requires
            old(self).wf(),
            old(self).tape().can_get(Some(BUFSIZE as nat)),
        ensures
            final(self).wf(),
            is_get(old(self).tape(), old(self).source(), final(self).tape(), final(self).source(), c),
            old(self).drained() ==> c == 0 && final(self).drained(),
    {
        if self.head == BUFSIZE {
            self.fetch();
        }
        let ghost mid = self.tape();
        let c = self.buf[self.head];
        self.head += 1;
        proof {
            let t = old(self).tape();
            assert(self.tape() =~= mid.advance());
            if t.ahead.len() == 0 {
                let room = (BUFSIZE - t.highlight.len()) as nat;
                let data = choose|data: Seq<u8>|
                    {
                        &&& #[trigger] is_read(old(self).source(), self.source(), data, room)
                        &&& mid == (Tape { highlight: t.highlight, ahead: padded(data, room) })
                    };
                assert(t.feed(padded(data, room)) =~= mid);
            }
            if old(self).drained() {
                lemma_get_after_end(
                    old(self).tape(),
                    old(self).source(),
                    self.tape(),
                    self.source(),
                    c,
                );
            }
        }
        c
    }

    /// Behaves like `get`, but returns the byte as a `char` to ease later
    /// matching.
    pub fn get_char(&mut self) -> (ch: char)
        requires
            old(self).wf(),
            old(self).tape().can_get(Some(BUFSIZE as nat)),
        ensures
            final(self).wf(),
            ch as u32 <= 255,
            is_get(
                old(self).tape(),
                old(self).source(),
                final(self).tape(),
                final(self).source(),
                ch as u8,
            ),
            old(self).drained() ==> ch as u8 == 0 && final(self).drained(),
    {
        self.get() as char
    }

    /// Moves the head backward by one byte, which leaves the token and
    /// stays buffered. The token must not be empty.
    pub fn unget(&mut self)
        requires
            old(self).wf(),
            old(self).tape().highlight.len() > 0,
        ensures
            final(self).wf(),
            final(self).tape() == old(self).tape().unget(),
            final(self).source() == old(self).source(),
    {
        self.head -= 1;
        proof {
            assert(self.tape().highlight =~= old(self).tape().unget().highlight);
            assert(self.tape().ahead =~= old(self).tape().unget().ahead);
        }
    }

    /// Moves the tail to the head, resetting the current token to the empty
    /// one. What was in the token cannot be read again.
    pub fn move_on(&mut self)
        requires
            old(self).wf(),
        ensures
            final(self).wf(),
            final(self).tape() == old(self).tape().move_on(),
            final(self).source() == old(self).source(),
    {
        self.tail = self.head;
        proof {
            assert(self.tape().highlight =~= Seq::<u8>::empty());
        }
    }

    /// Gives up on the current token and moves the head back to the tail:
    /// the bytes of the token will be read again.
    pub fn give_up(&mut self)
        requires
            old(self).wf(),
        ensures
            final(self).wf(),
            final(self).tape() == old(self).tape().give_up(),
            final(self).source() == old(self).source(),
    {
        self.head = self.tail;
        proof {
            assert(self.tape().highlight =~= Seq::<u8>::empty());
            assert(self.tape().ahead =~= old(self).tape().give_up().ahead);
        }
    }

    /// Returns a copy of the current token.
    pub fn get_token(&self) -> (token: Vec<u8>)
        requires
            self.wf(),
        ensures
            token@ == self.tape().highlight,
    {
        let mut token: Vec<u8> = Vec::new();
        let mut i: usize = self.tail;
        while i < self.head
            invariant
                self.tail <= i <= self.head <= BUFSIZE,
                token@ == self.buf@.subrange(self.tail as int, i as int),
            decreases self.head - i,
        {
            token.push(self.buf[i]);
            i += 1;
            assert(token@ =~= self.buf@.subrange(self.tail as int, i as int));
        }
        token
    }

    /// Returns the current token and moves on: `get_token` followed by
    /// `move_on`.
    pub fn validate(&mut self) -> (token: Vec<u8>)
        requires
            old(self).wf(),
        ensures
            final(self).wf(),
            token@ == old(self).tape().highlight,
            final(self).tape() == old(self).tape().move_on(),
            final(self).source() == old(self).source(),
    {
        let res = self.get_token();
        self.move_on();
        res
    }

    /// Shrinks the current token on the left: the tail moves forward by one
    /// byte, which is lost. The token must not be empty.
    pub fn shrink(&mut self)
        requires
            old(self).wf(),
            old(self).tape().highlight.len() > 0,
        ensures
            final(self).wf(),
            final(self).tape() == old(self).tape().shrink(),
            final(self).source() == old(self).source(),
    {
        self.tail += 1;
        proof {
            assert(self.tape().highlight =~= old(self).tape().shrink().highlight);
        }
    }

    /// Length of the current token.
    pub fn token_len(&self) -> (n: usize)
        requires
            self.wf(),
        ensures
            n == self.tape().highlight.len(),
    {
        self.head - self.tail
    }

    /// Whether `get` can be served.
    pub fn has_room(&self) -> (b: bool)
        requires
            self.wf(),
        ensures
            b == self.tape().can_get(Some(BUFSIZE as nat)),
    {
        self.head < BUFSIZE || self.tail > 0
    }
}

} // verus!
