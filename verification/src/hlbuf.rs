//! The highlight-buffer contract and the iterator over a buffer.

use vstd::prelude::*;
use vstd::std_specs::cmp::PartialEqSpec;
use vstd::std_specs::iter::IteratorSpec;

use crate::iter_hlbuf::IterHlBuf;
use crate::read_hlbuf::ReadHlBuf;
use crate::source::ByteSource;
use crate::tape::Tape;
use crate::{is_get, BUFSIZE};

verus! {

/// The ways a buffer operation can be misused.
#[derive(Clone, Copy, Debug, PartialEq, Eq, Structural)]
pub enum HlError {
    /// `unget` on an empty highlight: the head would move behind the tail.
    UngetPastTail,
    /// `shrink` on an empty highlight.
    EmptyWindow,
    /// `get` needs fresh data, but the highlight fills the whole buffer.
    CapacityOverflow,
}

impl HlError {
    /// A short description for the person who made the call.
    pub fn message(self) -> (s: &'static str)
        ensures
            s@ == (match self {
                HlError::UngetPastTail => "Cannot unget, you have moved on !"@,
                HlError::EmptyWindow => "Current token is empty !"@,
                HlError::CapacityOverflow => "Current token is longer than buffer"@,
            }),
    {
        match self {
            HlError::UngetPastTail => "Cannot unget, you have moved on !",
            HlError::EmptyWindow => "Current token is empty !",
            HlError::CapacityOverflow => "Current token is longer than buffer",
        }
    }
}

/// An iterator on a `HlBuf`: it takes items with `get` until the one that
/// marks the end of the source comes.
///
/// The items it hands out stay in the highlight of the buffer it borrows,
/// so that what was recognised can be validated or given up afterwards.
pub struct HlIter<'a, T: HlBuf> {
    /// The buffer the items are taken from.
    pub lb: &'a mut T,
}

impl<'a, T: HlBuf> HlIter<'a, T> {
    /// The borrowed buffer, in its current state.
    pub open spec fn buffer(&self) -> T {
        *self.lb
    }
}

/// A buffer with a highlight.
///
/// The user may see it as an infinite read-only tape with two pointers on
/// it, *head* and *tail*, delimiting the current highlight `[tail, head)`.
/// One can never go back beyond the tail: once the highlight has been
/// moved on from, it is lost.
///
/// `get`, `unget` and `shrink` are only to be called where they can be
/// served. `try_get`, `try_unget` and `try_shrink` test that first and
/// report a call that cannot.
pub trait HlBuf: Sized {
    /// The items on the tape.
    type Content;

    /// The buffer is in a state its operations can start from.
    spec fn wf(&self) -> bool;

    /// The highlight and the buffered items right of it.
    spec fn tape(&self) -> Tape<Self::Content>;

    /// The longest highlight a buffer of this kind can hold, if there is a
    /// limit.
    spec fn capacity() -> Option<nat>;

    /// Whether `move_on` keeps the items buffered right of the head. Where
    /// it does not, such items are dropped with the highlight and the next
    /// `get` pulls from the source.
    spec fn keeps_ahead() -> bool;

    /// Returns the next unread item and moves the head forward, adding the
    /// item to the current highlight.
    fn get(&mut self) -> (c: Self::Content)
        requires
            old(self).wf(),
            old(self).tape().can_get(Self::capacity()),
        ensures
            final(self).wf(),
            old(self).tape().got(final(self).tape(), c),
    ;

    /// Moves the head backward by one item. The highlight must not be
    /// empty.
    fn unget(&mut self)
        requires
            old(self).wf(),
            old(self).tape().highlight.len() > 0,
        ensures
            final(self).wf(),
            final(self).tape() == old(self).tape().unget(),
    ;

    /// Moves the tail to the head, resetting the current highlight to the
    /// empty one.
    fn move_on(&mut self)
        requires
            old(self).wf(),
        ensures
            final(self).wf(),
            final(self).tape() == old(self).tape().commit(Self::keeps_ahead()),
    ;

    /// Gives up on the current highlight and moves the head back to the
    /// tail: the items of the highlight will be read again.
    fn give_up(&mut self)
        requires
            old(self).wf(),
        ensures
            final(self).wf(),
            final(self).tape() == old(self).tape().give_up(),
    ;

    /// Returns a copy of the current highlight.
    fn get_highlight(&self) -> (v: Vec<Self::Content>)
        requires
            self.wf(),
        ensures
            v@ == self.tape().highlight,
    ;

    /// Shrinks the current highlight on the left: the tail moves forward by
    /// one item. The highlight must not be empty.
    fn shrink(&mut self)
        requires
            old(self).wf(),
            old(self).tape().highlight.len() > 0,
        ensures
            final(self).wf(),
            final(self).tape() == old(self).tape().shrink(),
    ;

    /// Length of the current highlight.
    fn highlight_len(&self) -> (n: usize)
        requires
            self.wf(),
        ensures
            n == self.tape().highlight.len(),
    ;

    /// Whether `get` can be served.
    fn has_room(&self) -> (b: bool)
        requires
            self.wf(),
        ensures
            b == self.tape().can_get(Self::capacity()),
    ;

    /// Returns the current highlight and moves on: `get_highlight` followed
    /// by `move_on`.
    fn validate(&mut self) -> (v: Vec<Self::Content>)
        requires
            old(self).wf(),
        ensures
            final(self).wf(),
            v@ == old(self).tape().highlight,
            final(self).tape() == old(self).tape().commit(Self::keeps_ahead()),
    {
        let res = self.get_highlight();
        self.move_on();
        res
    }

    /// Returns an iterator on the buffer. While it is in use the buffer is
    /// reached through it alone; every item it takes stays in the
    /// highlight.
    fn iter(&mut self) -> (it: HlIter<'_, Self>)
        ensures
            *it.lb == *old(self),
            *final(it.lb) == *final(self),
    {
        HlIter { lb: self }
    }

    /// `get` where it can be served; otherwise the buffer stays as it is
    /// and the overflow is reported.
    fn try_get(&mut self) -> (r: Result<Self::Content, HlError>)
        requires
            old(self).wf(),
        ensures
            final(self).wf(),
            r is Ok <==> old(self).tape().can_get(Self::capacity()),
            r matches Ok(c) ==> old(self).tape().got(final(self).tape(), c),
            r matches Err(e) ==> e == HlError::CapacityOverflow && *final(self) == *old(self),
    {
        if self.has_room() {
            Ok(self.get())
        } else {
            Err(HlError::CapacityOverflow)
        }
    }

    /// `unget` where the highlight is not empty; otherwise the buffer stays
    /// as it is and the misuse is reported.
    fn try_unget(&mut self) -> (r: Result<(), HlError>)
        requires
            old(self).wf(),
        ensures
            final(self).wf(),
            r is Ok <==> old(self).tape().highlight.len() > 0,
            r is Ok ==> final(self).tape() == old(self).tape().unget(),
            r matches Err(e) ==> e == HlError::UngetPastTail && *final(self) == *old(self),
    {
        if self.highlight_len() > 0 {
            self.unget();
            Ok(())
        } else {
            Err(HlError::UngetPastTail)
        }
    }

    /// `shrink` where the highlight is not empty; otherwise the buffer
    /// stays as it is and the misuse is reported.
    fn try_shrink(&mut self) -> (r: Result<(), HlError>)
        requires
            old(self).wf(),
        ensures
            final(self).wf(),
            r is Ok <==> old(self).tape().highlight.len() > 0,
            r is Ok ==> final(self).tape() == old(self).tape().shrink(),
            r matches Err(e) ==> e == HlError::EmptyWindow && *final(self) == *old(self),
    {
        if self.highlight_len() > 0 {
            self.shrink();
            Ok(())
        } else {
            Err(HlError::EmptyWindow)
        }
    }
}

impl<'a, T: ByteSource> HlIter<'a, ReadHlBuf<T>> {
    /// Takes the next byte from the buffer and hands it out, unless it is
    /// zero: a zero byte ends the iteration. Either way the byte is added
    /// to the highlight.
    pub fn next(&mut self) -> (r: Option<u8>)
        requires
            old(self).buffer().wf(),
            old(self).buffer().tape().can_get(Some(BUFSIZE as nat)),
        ensures
            final(self).buffer().wf(),
            *final(final(self).lb) == *final(old(self).lb),
            ({
                let c = final(self).buffer().tape().highlight.last();
                &&& is_get(
                    old(self).buffer().tape(),
                    old(self).buffer().source(),
                    final(self).buffer().tape(),
                    final(self).buffer().source(),
                    c,
                )
                &&& r == if c == 0 {
                    None
                } else {
                    Some(c)
                }
            }),
            old(self).buffer().drained() ==> r is None && final(self).buffer().drained(),
    {
        let c = self.lb.get();
        if c == 0 {
            return None;
        }
        Some(c)
    }
}

impl<'a, I> HlIter<'a, IterHlBuf<I>> where I: Iterator, I::Item: Copy + PartialEq {
    /// Takes the next item from the buffer and hands it out, unless it
    /// compares equal to the end indicator, which ends the iteration.
    /// Either way the item is added to the highlight.
    pub fn next(&mut self) -> (r: Option<I::Item>)
        requires
            old(self).buffer().wf(),
        ensures
            final(self).buffer().wf(),
            *final(final(self).lb) == *final(old(self).lb),
            final(self).buffer().endind() == old(self).buffer().endind(),
            final(self).buffer().origin() == old(self).buffer().origin(),
            ({
                let c = final(self).buffer().tape().highlight.last();
                let before = old(self).buffer();
                let after = final(self).buffer();
                &&& before.tape().got_one(after.tape(), c)
                &&& r matches Some(x) ==> x == c
                &&& I::Item::obeys_eq_spec() ==> (r is None <==> c.eq_spec(&before.endind()))
                &&& before.tape().ahead.len() > 0 ==> {
                    &&& after.source() == before.source()
                    &&& after.cache() == before.cache()
                }
                &&& before.tape().ahead.len() == 0 ==> after.cache() == before.cache().push(c)
                &&& before.tape().ahead.len() == 0 && before.source().obeys_prophetic_iter_laws()
                    ==> {
                    let left = before.source().remaining();
                    &&& after.source().obeys_prophetic_iter_laws()
                    &&& left.len() > 0 ==> c == left[0] && after.source().remaining()
                        == left.drop_first()
                    &&& left.len() == 0 ==> c == before.endind() && after.source().remaining()
                        == left
                }
            }),
    {
        let c = self.lb.get();
        if c == self.lb.get_endind() {
            return None;
        }
        Some(c)
    }
}

} // verus!
