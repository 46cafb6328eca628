//! A message payload holding zero, one, or many values.  The single-part
//! case is by far the most common during a transfer, so it carries no
//! allocation for a vector.

use vstd::prelude::*;

verus! {

/// Zero, one, or many values of one kind.
#[derive(Debug)]
pub enum MaybeVec<T> {
    /// No value.
    Empty,
    /// Exactly one value, with no surrounding vector.
    One(T),
    /// Any number of values.
    Many(Vec<T>),
}

impl<T> View for MaybeVec<T> {
    type V = Seq<T>;

    /// What the payload holds, in order.
    open spec fn view(&self) -> Seq<T> {
        match self {
            MaybeVec::Empty => Seq::empty(),
            MaybeVec::One(t) => seq![*t],
            MaybeVec::Many(v) => v@,
        }
    }
}

impl<T> MaybeVec<T> {
    /// An empty payload.
    pub fn empty() -> (r: Self)
        ensures
            r@ == Seq::<T>::empty(),
    {
        MaybeVec::Empty
    }

    /// A payload of exactly one value.
    pub fn from_one(t: T) -> (r: Self)
        ensures
            r@ == seq![t],
    {
        MaybeVec::One(t)
    }

    /// A payload of any number of values.
    pub fn from_many(v: Vec<T>) -> (r: Self)
        ensures
            r@ == v@,
    {
        MaybeVec::Many(v)
    }

    /// How many values the payload holds.
    pub fn len(&self) -> (r: usize)
        ensures
            r == self@.len(),
    {
        match self {
            MaybeVec::Empty => 0,
            MaybeVec::One(_) => 1,
            MaybeVec::Many(v) => v.len(),
        }
    }

    /// The same values as a plain vector.
    pub fn into_vec(self) -> (r: Vec<T>)
        ensures
            r@ == self@,
    {
        match self {
            MaybeVec::Empty => Vec::new(),
            MaybeVec::One(t) => {
                let mut v = Vec::new();
                v.push(t);
                v
            },
            MaybeVec::Many(v) => v,
        }
    }
}

} // verus!
