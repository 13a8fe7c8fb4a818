//! The abstract picture every buffer in this crate presents.
//!
//! A buffer is a read-only tape with two cursors, *tail* and *head*. The
//! items in `[tail, head)` form the current highlight. Items that were
//! already pulled from the source but lie at or right of `head` are kept
//! for re-reading. Items left of `tail` are gone for good.

use vstd::prelude::*;

verus! {

/// The visible part of a tape: the highlight, followed by the items that
/// are buffered right of the head.
#[verifier::ext_equal]
pub struct Tape<T> {
    /// The items in `[tail, head)`, oldest first.
    pub highlight: Seq<T>,
    /// The buffered items from `head` on, in the order `get` will hand
    /// them out.
    pub ahead: Seq<T>,
}

impl<T> Tape<T> {
    /// A tape with an empty highlight and nothing buffered.
    pub open spec fn blank() -> Self {
        Tape { highlight: Seq::empty(), ahead: Seq::empty() }
    }

    /// Every item that is still held, from tail to the end of the buffer.
    pub open spec fn held(self) -> Seq<T> {
        self.highlight + self.ahead
    }

    /// A `get` can be served where the highlight may not grow beyond
    /// `capacity` items, if that is a limit: an item is buffered, or there
    /// is room to pull one from the source.
    pub open spec fn can_get(self, capacity: Option<nat>) -> bool {
        ||| self.ahead.len() > 0
        ||| capacity matches Some(limit) ==> self.highlight.len() < limit
    }

    /// The head moves right over one buffered item.
    pub open spec fn advance(self) -> Self
        recommends
            self.ahead.len() > 0,
    {
        Tape { highlight: self.highlight.push(self.ahead[0]), ahead: self.ahead.skip(1) }
    }

    /// `n` times `advance`.
    pub open spec fn advance_by(self, n: nat) -> Self
        recommends
            n <= self.ahead.len(),
        decreases n,
    {
        if n == 0 {
            self
        } else {
            self.advance().advance_by((n - 1) as nat)
        }
    }

    /// Freshly pulled items are appended behind what is buffered.
    pub open spec fn feed(self, items: Seq<T>) -> Self {
        Tape { highlight: self.highlight, ahead: self.ahead + items }
    }

    /// The head moves left by one item, which stays buffered.
    pub open spec fn unget(self) -> Self
        recommends
            self.highlight.len() > 0,
    {
        Tape {
            highlight: self.highlight.drop_last(),
            ahead: seq![self.highlight.last()] + self.ahead,
        }
    }

    /// The tail jumps to the head: the highlight is committed and lost.
    pub open spec fn move_on(self) -> Self {
        Tape { highlight: Seq::empty(), ahead: self.ahead }
    }

    /// The highlight is committed, and with `keep_ahead` unset the buffered
    /// items right of the head are dropped along with it.
    pub open spec fn commit(self, keep_ahead: bool) -> Self {
        if keep_ahead {
            self.move_on()
        } else {
            Self::blank()
        }
    }

    /// The head falls back to the tail: the highlight becomes read-ahead.
    pub open spec fn give_up(self) -> Self {
        Tape { highlight: Seq::empty(), ahead: self.highlight + self.ahead }
    }

    /// The tail moves right by one item, which is lost.
    pub open spec fn shrink(self) -> Self
        recommends
            self.highlight.len() > 0,
    {
        Tape { highlight: self.highlight.drop_first(), ahead: self.ahead }
    }

    /// `next` is a tape that one `get` returning `c` may leave behind.
    ///
    /// The highlight grows by `c`. Where an item was buffered, `c` is that
    /// item and nothing else changes; otherwise `c` and the new read-ahead
    /// come from the source.
    pub open spec fn got(self, next: Self, c: T) -> bool {
        &&& next.highlight == self.highlight.push(c)
        &&& self.ahead.len() > 0 ==> c == self.ahead[0] && next == self.advance()
    }

    /// `next` is the tape that a `get` returning `c` leaves behind where the
    /// source is asked for a single item at a time: a buffered item is
    /// handed out, and with nothing buffered `c` is pulled and handed out
    /// at once.
    pub open spec fn got_one(self, next: Self, c: T) -> bool {
        if self.ahead.len() > 0 {
            c == self.ahead[0] && next == self.advance()
        } else {
            next == self.feed(seq![c]).advance()
        }
    }
}

/// `steps[i]` leads to `steps[i + 1]` by a `get` that returned `items[i]`.
pub open spec fn is_get_run<T>(steps: Seq<Tape<T>>, items: Seq<T>) -> bool {
    &&& steps.len() == items.len() + 1
    &&& forall|i: int| 0 <= i < items.len() ==> (#[trigger] steps[i]).got(steps[i + 1], items[i])
}

/// Advancing over `n` buffered items moves exactly those items, in order,
/// from the read-ahead to the end of the highlight.
pub proof fn lemma_advance_by<T>(t: Tape<T>, n: nat)
    requires
        n <= t.ahead.len(),
    ensures
        t.advance_by(n).highlight == t.highlight + t.ahead.take(n as int),
        t.advance_by(n).ahead == t.ahead.skip(n as int),
    decreases n,
{
    if n > 0 {
        let u = t.advance();
        lemma_advance_by(u, (n - 1) as nat);
        assert(u.highlight + u.ahead.take(n - 1) =~= t.highlight + t.ahead.take(n as int));
        assert(u.ahead.skip(n - 1) =~= t.ahead.skip(n as int));
    }
}

/// A run of `get` calls appends the items they returned, in call order, to
/// the highlight it started from.
pub proof fn lemma_get_run_extends_highlight<T>(steps: Seq<Tape<T>>, items: Seq<T>)
    requires
        is_get_run(steps, items),
    ensures
        steps.last().highlight == steps[0].highlight + items,
    decreases items.len(),
{
    if items.len() > 0 {
        let n = items.len() - 1;
        lemma_get_run_extends_highlight(steps.drop_last(), items.drop_last());
        assert(steps[n].got(steps[n + 1], items[n]));
        assert(steps.drop_last().last() == steps[n]);
        assert((steps[0].highlight + items.drop_last()).push(items[n]) =~= steps[0].highlight
            + items);
    } else {
        assert(steps[0].highlight + items =~= steps[0].highlight);
    }
}

/// After any run of `get` calls that starts from an empty highlight, as
/// `move_on` and `give_up` leave it, the highlight holds exactly the items
/// the calls returned, in call order.
pub proof fn lemma_highlight_is_what_was_got<T>(steps: Seq<Tape<T>>, items: Seq<T>)
    requires
        is_get_run(steps, items),
        steps[0].highlight.len() == 0,
    ensures
        steps.last().highlight == items,
{
    lemma_get_run_extends_highlight(steps, items);
    assert(steps[0].highlight + items =~= items);
}

/// As long as a run of `get` calls stays within what was buffered at its
/// start, every call finds its item in the buffer and hands out the
/// buffered items in order.
pub proof fn lemma_get_run_in_buffer<T>(steps: Seq<Tape<T>>, items: Seq<T>, k: nat)
    requires
        is_get_run(steps, items),
        k <= items.len(),
        k <= steps[0].ahead.len(),
    ensures
        steps[k as int] == steps[0].advance_by(k),
        forall|i: int| 0 <= i < k ==> (#[trigger] steps[i]).ahead.len() > 0,
        forall|i: int| 0 <= i < k ==> #[trigger] items[i] == steps[0].ahead[i],
    decreases k,
{
    if k > 0 {
        let j = k - 1;
        lemma_get_run_in_buffer(steps, items, j as nat);
        lemma_advance_by(steps[0], j as nat);
        lemma_advance_by(steps[0], k);
        assert(steps[j].got(steps[j + 1], items[j]));
        assert(steps[j].advance().highlight =~= steps[0].advance_by(k).highlight);
        assert(steps[j].advance().ahead =~= steps[0].advance_by(k).ahead);
    }
}

/// Giving up and then advancing over as many items as the highlight held
/// brings the tape back to where it was.
pub proof fn lemma_give_up_then_advance<T>(t: Tape<T>)
    ensures
        t.highlight.len() <= t.give_up().ahead.len(),
        t.give_up().advance_by(t.highlight.len()) == t,
{
    let g = t.give_up();
    let n = t.highlight.len();
    lemma_advance_by(g, n);
    assert(g.highlight + g.ahead.take(n as int) =~= t.highlight);
    assert(g.ahead.skip(n as int) =~= t.ahead);
}

/// `give_up` followed by as many `get` calls as the highlight held items
/// returns the same items again, ends on the tape it started from and
/// serves every call from the buffer.
pub proof fn lemma_replay_after_give_up<T>(t: Tape<T>, steps: Seq<Tape<T>>, items: Seq<T>)
    requires
        is_get_run(steps, items),
        steps[0] == t.give_up(),
        items.len() == t.highlight.len(),
    ensures
        items == t.highlight,
        steps.last() == t,
        forall|i: int| 0 <= i < items.len() ==> (#[trigger] steps[i]).ahead.len() > 0,
{
    lemma_give_up_then_advance(t);
    lemma_get_run_in_buffer(steps, items, items.len());
    assert(items =~= t.highlight);
}

/// `unget` after `get` restores the highlight, shortening it by exactly
/// the item just read, and leaves that item first in line for the next
/// `get`.
pub proof fn lemma_unget_undoes_get<T>(t: Tape<T>, next: Tape<T>, c: T)
    requires
        t.got(next, c),
    ensures
        next.unget().highlight == t.highlight,
        next.unget().highlight.len() == next.highlight.len() - 1,
        next.unget().ahead.len() > 0,
        next.unget().ahead[0] == c,
        next.unget().advance() == next,
        t.ahead.len() > 0 ==> next.unget() == t,
{
    let u = next.unget();
    assert(u.highlight =~= t.highlight);
    assert(u.advance().highlight =~= next.highlight);
    assert(u.advance().ahead =~= next.ahead);
    if t.ahead.len() > 0 {
        assert(u.ahead =~= t.ahead);
    }
}

/// Any `get` that follows `get` and `unget` returns the same item again and
/// ends where the first `get` ended.
pub proof fn lemma_get_again_after_unget<T>(t: Tape<T>, next: Tape<T>, c: T, again: Tape<T>, d: T)
    requires
        t.got(next, c),
        next.unget().got(again, d),
    ensures
        d == c,
        again == next,
{
    lemma_unget_undoes_get(t, next, c);
    assert(again.highlight.last() == d);
    assert(next.highlight.last() == c);
}

/// A `get` that pulls one item at a time is a `get`, and with nothing
/// buffered it leaves nothing buffered.
pub proof fn lemma_got_one_is_got<T>(t: Tape<T>, next: Tape<T>, c: T)
    requires
        t.got_one(next, c),
    ensures
        t.got(next, c),
        t.ahead.len() == 0 ==> next.ahead.len() == 0,
{
    if t.ahead.len() == 0 {
        let fed = t.feed(seq![c]);
        assert(fed.ahead[0] == c);
        assert(next.ahead =~= Seq::<T>::empty());
    }
}

} // verus!
