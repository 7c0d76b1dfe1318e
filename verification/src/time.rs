//! Instants, as the store records them.

use vstd::prelude::*;

verus! {

/// An instant in UTC: microseconds since 1970-01-01T00:00:00Z.
#[derive(Clone, Copy, Debug, PartialEq, Eq, PartialOrd, Ord, Hash)]
pub struct Timestamp {
    pub micros: i64,
}

impl DeepView for Timestamp {
    type V = int;

    open spec fn deep_view(&self) -> int {
        self.micros as int
    }
}

impl View for Timestamp {
    type V = int;

    open spec fn view(&self) -> int {
        self.micros as int
    }
}

impl Timestamp {
    /// The instant `micros` microseconds after the epoch.
    pub fn from_micros(micros: i64) -> (at: Timestamp)
        ensures
            at@ == micros,
    {
        Timestamp { micros }
    }

    /// `self` lies strictly after `other`.
    pub fn is_after(&self, other: &Timestamp) -> (after: bool)
        ensures
            after == (self@ > other@),
    {
        self.micros > other.micros
    }
}

/// A copy of an optional instant.
pub(crate) fn copy_instant(at: &Option<Timestamp>) -> (copy: Option<Timestamp>)
    ensures
        copy.deep_view() == at.deep_view(),
{
    match at {
        Some(t) => Some(*t),
        None => None,
    }
}

} // verus!
