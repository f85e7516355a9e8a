//! The merge state machine. A driver polls the sources that the machine asks
//! for and hands it what each poll gave; the machine decides what the merged
//! sequence yields for that cycle.
use vstd::prelude::*;

use crate::either_or_both::EitherOrBoth;
use crate::either_or_none::{EitherOrNone, Entry};

verus! {

/// What one poll of a sequence gave.
#[derive(Debug, Clone, Copy, PartialEq, Eq, Hash)]
pub enum Polled<T> {
    /// The next item.
    Item(T),
    /// The sequence has ended.
    Done,
    /// No item is ready yet.
    Pending,
}

/// Whether a cycle that starts from slot `s` polls the left source: not while
/// a left item waits in the slot.
pub open spec fn polls_left<L, R>(s: EitherOrNone<L, R>) -> bool {
    !(s is Left)
}

/// Whether a cycle that starts from slot `s` polls the right source: not while
/// a right item waits in the slot.
pub open spec fn polls_right<L, R>(s: EitherOrNone<L, R>) -> bool {
    !(s is Right)
}

/// One merge cycle: from slot `s` and what the polled sources gave (`None` for
/// a source that was not polled), the new slot and what the merge yields.
pub open spec fn step<L, R>(
    s: EitherOrNone<L, R>,
    l: Option<Polled<L>>,
    r: Option<Polled<R>>,
) -> (EitherOrNone<L, R>, Polled<EitherOrBoth<L, R>>) {
    match s {
        EitherOrNone::Empty => match (l, r) {
            (Some(Polled::Item(a)), Some(Polled::Item(b))) => (
                EitherOrNone::Empty,
                Polled::Item(EitherOrBoth::Both(a, b)),
            ),
            (Some(Polled::Done), Some(Polled::Item(b))) => (
                EitherOrNone::Empty,
                Polled::Item(EitherOrBoth::Right(b)),
            ),
            (Some(Polled::Item(a)), Some(Polled::Done)) => (
                EitherOrNone::Empty,
                Polled::Item(EitherOrBoth::Left(a)),
            ),
            (Some(Polled::Done), Some(Polled::Done)) => (EitherOrNone::Empty, Polled::Done),
            (Some(Polled::Item(a)), Some(Polled::Pending)) => (
                EitherOrNone::Left(a),
                Polled::Pending,
            ),
            (Some(Polled::Pending), Some(Polled::Item(b))) => (
                EitherOrNone::Right(b),
                Polled::Pending,
            ),
            _ => (s, Polled::Pending),
        },
        EitherOrNone::Left(a) => match r {
            Some(Polled::Item(b)) => (EitherOrNone::Empty, Polled::Item(EitherOrBoth::Both(a, b))),
            Some(Polled::Done) => (EitherOrNone::Empty, Polled::Item(EitherOrBoth::Left(a))),
            _ => (s, Polled::Pending),
        },
        EitherOrNone::Right(b) => match l {
            Some(Polled::Item(a)) => (EitherOrNone::Empty, Polled::Item(EitherOrBoth::Both(a, b))),
            Some(Polled::Done) => (EitherOrNone::Empty, Polled::Item(EitherOrBoth::Right(b))),
            _ => (s, Polled::Pending),
        },
    }
}

/// The merge of two sequences into one, pairing items by position: the
/// decisions of each cycle, with the item that waits for its partner.
pub struct ZipLongest<L, R> {
    ready: EitherOrNone<L, R>,
}

impl<L, R> View for ZipLongest<L, R> {
    type V = EitherOrNone<L, R>;

    closed spec fn view(&self) -> EitherOrNone<L, R> {
        self.ready
    }
}

impl<L, R> ZipLongest<L, R> {
    /// A merge that has seen no item yet.
    pub fn new() -> (z: Self)
        ensures
            z@ is Empty,
    {
        ZipLongest { ready: EitherOrNone::Empty }
    }

    /// Whether the next cycle polls the left source.
    pub fn polls_left(&self) -> (b: bool)
        ensures
            b == polls_left(self@),
    {
        match &self.ready {
            EitherOrNone::Left(_) => false,
            _ => true,
        }
    }

    /// Whether the next cycle polls the right source.
    pub fn polls_right(&self) -> (b: bool)
        ensures
            b == polls_right(self@),
    {
        match &self.ready {
            EitherOrNone::Right(_) => false,
            _ => true,
        }
    }

    /// One cycle: `left` and `right` are what the polled sources gave, `None`
    /// for a source that this cycle does not poll.
    pub fn poll_next(&mut self, left: Option<Polled<L>>, right: Option<Polled<R>>) -> (p: Polled<
        EitherOrBoth<L, R>,
    >)
        requires
            left is Some <==> polls_left(old(self)@),
            right is Some <==> polls_right(old(self)@),
        ensures
            (final(self)@, p) == step(old(self)@, left, right),
    {
        match self.ready.entry() {
            Entry::Empty(entry) => match (left, right) {
                (Some(Polled::Item(l)), Some(Polled::Item(r))) => Polled::Item(
                    EitherOrBoth::Both(l, r),
                ),
                (Some(Polled::Done), Some(Polled::Item(r))) => Polled::Item(EitherOrBoth::Right(r)),
                (Some(Polled::Item(l)), Some(Polled::Done)) => Polled::Item(EitherOrBoth::Left(l)),
                (Some(Polled::Done), Some(Polled::Done)) => Polled::Done,
                (Some(Polled::Item(l)), Some(Polled::Pending)) => {
                    entry.insert_left(l);
                    Polled::Pending
                },
                (Some(Polled::Pending), Some(Polled::Item(r))) => {
                    entry.insert_right(r);
                    Polled::Pending
                },
                _ => Polled::Pending,
            },
            Entry::Left(entry) => match right {
                Some(Polled::Item(r)) => Polled::Item(EitherOrBoth::Both(entry.remove(), r)),
                Some(Polled::Done) => Polled::Item(EitherOrBoth::Left(entry.remove())),
                _ => Polled::Pending,
            },
            Entry::Right(entry) => match left {
                Some(Polled::Item(l)) => Polled::Item(EitherOrBoth::Both(l, entry.remove())),
                Some(Polled::Done) => Polled::Item(EitherOrBoth::Right(entry.remove())),
                _ => Polled::Pending,
            },
        }
    }
}

} // verus!
