//! The pending slot: at most one item waiting for its partner, with a
//! typestate entry API that only offers the operations legal in each state.
use vstd::prelude::*;

verus! {

/// The slot that holds an item whose counterpart has not arrived yet.
pub enum EitherOrNone<L, R> {
    Empty,
    Left(L),
    Right(R),
}

/// View of a slot that holds nothing: it can only be filled.
pub struct NoneEntry<'a, L, R> {
    pub eon: &'a mut EitherOrNone<L, R>,
}

/// View of a slot that holds a left item: it can only be emptied.
pub struct LeftEntry<'a, L, R> {
    pub eon: &'a mut EitherOrNone<L, R>,
}

/// View of a slot that holds a right item: it can only be emptied.
pub struct RightEntry<'a, L, R> {
    pub eon: &'a mut EitherOrNone<L, R>,
}

impl<'a, L, R> NoneEntry<'a, L, R> {
    /// Views an empty slot.
    pub fn new(eon: &'a mut EitherOrNone<L, R>) -> (r: Self)
        requires
            *old(eon) is Empty,
        ensures
            *r.eon == *old(eon),
            *final(r.eon) == *final(eon),
    {
        NoneEntry { eon }
    }

    /// Puts a left item into the slot.
    pub fn insert_left(self, l: L) -> (r: LeftEntry<'a, L, R>)
        requires
            *self.eon is Empty,
        ensures
            *r.eon == EitherOrNone::<L, R>::Left(l),
            *final(r.eon) == *final(self.eon),
    {
        *self.eon = EitherOrNone::Left(l);
        LeftEntry::new(self.eon)
    }

    /// Puts a right item into the slot.
    pub fn insert_right(self, r: R) -> (e: RightEntry<'a, L, R>)
        requires
            *self.eon is Empty,
        ensures
            *e.eon == EitherOrNone::<L, R>::Right(r),
            *final(e.eon) == *final(self.eon),
    {
        *self.eon = EitherOrNone::Right(r);
        RightEntry::new(self.eon)
    }
}

impl<'a, L, R> LeftEntry<'a, L, R> {
    /// Views a slot that holds a left item.
    pub fn new(eon: &'a mut EitherOrNone<L, R>) -> (r: Self)
        requires
            *old(eon) is Left,
        ensures
            *r.eon == *old(eon),
            *final(r.eon) == *final(eon),
    {
        LeftEntry { eon }
    }

    /// Takes the left item out; the slot is empty afterwards.
    pub fn remove(self) -> (l: L)
        requires
            *self.eon is Left,
        ensures
            EitherOrNone::<L, R>::Left(l) == *old(self.eon),
            *final(self.eon) is Empty,
    {
        let mut taken = EitherOrNone::Empty;
        core::mem::swap(self.eon, &mut taken);
        match taken {
            EitherOrNone::Left(l) => l,
            _ => vstd::pervasive::unreached(),
        }
    }
}

impl<'a, L, R> RightEntry<'a, L, R> {
    /// Views a slot that holds a right item.
    pub fn new(eon: &'a mut EitherOrNone<L, R>) -> (r: Self)
        requires
            *old(eon) is Right,
        ensures
            *r.eon == *old(eon),
            *final(r.eon) == *final(eon),
    {
        RightEntry { eon }
    }

    /// Takes the right item out; the slot is empty afterwards.
    pub fn remove(self) -> (r: R)
        requires
            *self.eon is Right,
        ensures
            EitherOrNone::<L, R>::Right(r) == *old(self.eon),
            *final(self.eon) is Empty,
    {
        let mut taken = EitherOrNone::Empty;
        core::mem::swap(self.eon, &mut taken);
        match taken {
            EitherOrNone::Right(r) => r,
            _ => vstd::pervasive::unreached(),
        }
    }
}

/// The state of a slot, classified, each state with the view that fits it.
pub enum Entry<'a, L, R> {
    Empty(NoneEntry<'a, L, R>),
    Left(LeftEntry<'a, L, R>),
    Right(RightEntry<'a, L, R>),
}

impl<L, R> EitherOrNone<L, R> {
    /// Classifies the slot without changing it.
    pub fn entry(&mut self) -> (e: Entry<'_, L, R>)
        ensures
            match e {
                Entry::Empty(v) => *old(self) is Empty && *v.eon == *old(self) && *final(v.eon)
                    == *final(self),
                Entry::Left(v) => *old(self) is Left && *v.eon == *old(self) && *final(v.eon)
                    == *final(self),
                Entry::Right(v) => *old(self) is Right && *v.eon == *old(self) && *final(v.eon)
                    == *final(self),
            },
    {
        match self {
            EitherOrNone::Empty => Entry::Empty(NoneEntry::new(self)),
            EitherOrNone::Left(_) => Entry::Left(LeftEntry::new(self)),
            EitherOrNone::Right(_) => Entry::Right(RightEntry::new(self)),
        }
    }
}

} // verus!
