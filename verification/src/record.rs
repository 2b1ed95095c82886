//! Payloads together with the source positions that they came from.
use vstd::prelude::*;

verus! {

/// A payload and its immutable source-local position.
#[derive(Debug, PartialEq, Eq)]
pub struct Record<T, P> {
    pub payload: T,
    position: P,
}

impl<T, P> Record<T, P> {
    /// The source position.
    pub closed spec fn at(self) -> P {
        self.position
    }

    /// The payload.
    pub closed spec fn value(self) -> T {
        self.payload
    }

    /// A payload at a position.
    pub fn new(position: P, payload: T) -> (record: Self)
        ensures
            record.at() == position,
            record.value() == payload,
    {
        Self { position, payload }
    }

    /// Inspect the source position without changing it.
    pub fn position(&self) -> (position: &P)
        ensures
            *position == self.at(),
    {
        &self.position
    }

    /// Consume the envelope into its position and payload.
    pub fn into_parts(self) -> (parts: (P, T))
        ensures
            parts == (self.at(), self.value()),
    {
        (self.position, self.payload)
    }
}

/// Two records with the same position and the same payload are equal.
pub proof fn parts_tell_records<T, P>(left: Record<T, P>, right: Record<T, P>)
    requires
        left.at() == right.at(),
        left.value() == right.value(),
    ensures
        left == right,
{
}

impl<T: Clone, P: Clone> Clone for Record<T, P> {
    fn clone(&self) -> (copy: Self)
        ensures
            vstd::pervasive::cloned(self.at(), copy.at()),
            vstd::pervasive::cloned(self.value(), copy.value()),
    {
        Record { payload: self.payload.clone(), position: self.position.clone() }
    }
}

} // verus!
