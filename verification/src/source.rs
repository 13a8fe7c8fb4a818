//! Pull-based byte sources, the input side of the fixed-capacity buffers.

use vstd::prelude::*;

verus! {

/// A sequence of `n` zero bytes.
pub open spec fn zeros(n: nat) -> Seq<u8> {
    Seq::new(n, |i: int| 0u8)
}

/// `data`, followed by as many zero bytes as it takes to fill `room` cells.
pub open spec fn padded(data: Seq<u8>, room: nat) -> Seq<u8>
    recommends
        data.len() <= room,
{
    data + zeros((room - data.len()) as nat)
}

/// A reader of bytes that is asked for up to a region's worth at a time.
///
/// A call may deliver fewer bytes than the region holds. A source that has
/// run dry delivers nothing, on that call and on every later one.
///
/// The three predicates say what a source knows of itself. A source that
/// knows nothing keeps them as they are and promises of `read` only that
/// the count it returns fits the region.
pub trait ByteSource: Sized {
    /// What the source needs to hold between calls.
    open spec fn inv(&self) -> bool {
        true
    }

    /// The source has run dry. A source that cannot tell is never taken to
    /// have.
    open spec fn exhausted(&self) -> bool {
        false
    }

    /// The source's own account of one `read` that took it to `after` and
    /// delivered `data` into a region of `room` cells. A source that cannot
    /// tell how much a call will deliver admits every outcome.
    open spec fn reads(&self, after: &Self, data: Seq<u8>, room: nat) -> bool {
        true
    }

    /// Writes the next bytes of the source to the front of `dst` and
    /// returns how many were written.
    ///
    /// Cells of `dst` behind the written ones hold anything afterwards.
    fn read(&mut self, dst: &mut [u8]) -> (n: usize)
        requires
            old(self).inv(),
        ensures
            final(self).inv(),
            n <= old(dst)@.len(),
            final(dst)@.len() == old(dst)@.len(),
            old(self).exhausted() ==> n == 0 && final(self).exhausted(),
            old(self).reads(final(self), final(dst)@.take(n as int), old(dst)@.len()),
    ;
}

/// What one call of `read` promises, as a relation: the source went from
/// `before` to `after` and delivered `data` into a region of `room` cells.
pub open spec fn is_read<S: ByteSource>(before: S, after: S, data: Seq<u8>, room: nat) -> bool {
    &&& data.len() <= room
    &&& after.inv()
    &&& before.exhausted() ==> data.len() == 0 && after.exhausted()
    &&& before.reads(&after, data, room)
}

/// The smaller of two lengths.
pub open spec fn at_most(a: nat, b: nat) -> nat {
    if a <= b {
        a
    } else {
        b
    }
}

/// A byte source over a slice held in memory. It delivers as much as fits
/// on every call and is exhausted once the slice has been read to its end.
pub struct SliceSource<'a> {
    data: &'a [u8],
    pos: usize,
}

impl<'a> SliceSource<'a> {
    /// The bytes the source was made from.
    pub closed spec fn content(&self) -> Seq<u8> {
        self.data@
    }

    /// How many of them have been delivered.
    pub closed spec fn position(&self) -> nat {
        self.pos as nat
    }

    /// A source that will deliver `data` from its first byte on.
    pub fn new(data: &'a [u8]) -> (s: Self)
        ensures
            s.inv(),
            s.content() == data@,
            s.position() == 0,
    {
        SliceSource { data, pos: 0 }
    }
}

impl<'a> ByteSource for SliceSource<'a> {
    open spec fn inv(&self) -> bool {
        self.position() <= self.content().len()
    }

    open spec fn exhausted(&self) -> bool {
        self.position() == self.content().len()
    }

    open spec fn reads(&self, after: &Self, data: Seq<u8>, room: nat) -> bool {
        let n = at_most(room, (self.content().len() - self.position()) as nat);
        &&& after.content() == self.content()
        &&& after.position() == self.position() + n
        &&& data == self.content().subrange(
            self.position() as int,
            (self.position() + n) as int,
        )
    }

    fn read(&mut self, dst: &mut [u8]) -> (n: usize)
        ensures
            final(dst)@.skip(n as int) == old(dst)@.skip(n as int),
    {
        let left: usize = self.data.len() - self.pos;
        let n: usize = if dst.len() <= left {
            dst.len()
        } else {
            left
        };
        let start: usize = self.pos;
        let mut i: usize = 0;
        while i < n
            invariant
                i <= n,
                start + n <= self.data@.len() <= usize::MAX,
                n <= dst@.len(),
                dst@.len() == old(dst)@.len(),
                self.data@ == old(self).data@,
                self.pos == start,
                forall|j: int| 0 <= j < i ==> dst@[j] == self.data@[start + j],
                forall|j: int| i <= j < dst@.len() ==> dst@[j] == old(dst)@[j],
            decreases n - i,
        {
            dst[i] = self.data[start + i];
            i += 1;
        }
        self.pos = start + n;
        proof {
            let data = dst@.take(n as int);
            assert(data =~= self.data@.subrange(start as int, start + n));
            assert(dst@.skip(n as int) =~= old(dst)@.skip(n as int));
        }
        n
    }
}

} // verus!
