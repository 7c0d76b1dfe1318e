//! The ways in which a request for a recipe view ends without a document.

use vstd::prelude::*;

verus! {

/// Why no document was produced.
#[derive(Clone, Copy, Debug, PartialEq, Eq, Structural)]
pub enum Error {
    /// No session matches the token, or the one that does has expired.
    Unauthenticated,
    /// The user is known, and may see no recipe.
    NoRecipeAvailable,
    /// The recipe that was picked has no row any more.
    Inconsistent,
    /// A read of the store failed.
    StorageUnavailable,
}

/// How a request ended, as the transport reports it.
#[derive(Clone, Copy, Debug, PartialEq, Eq, Structural)]
pub enum Outcome {
    /// The caller is not let in.
    AccessDenied,
    /// There is nothing to show; not a failure.
    NothingToShow,
    /// The request failed inside the service.
    InternalFailure,
    /// The request failed for now and may be tried again.
    TemporarilyUnavailable,
}

impl Error {
    /// The outcome that the error maps to at the boundary.
    pub open spec fn outcome_spec(self) -> Outcome {
        match self {
            Error::Unauthenticated => Outcome::AccessDenied,
            Error::NoRecipeAvailable => Outcome::NothingToShow,
            Error::Inconsistent => Outcome::InternalFailure,
            Error::StorageUnavailable => Outcome::TemporarilyUnavailable,
        }
    }

    /// The outcome that the error maps to at the boundary.
    pub fn outcome(&self) -> (outcome: Outcome)
        ensures
            outcome == self.outcome_spec(),
    {
        match self {
            Error::Unauthenticated => Outcome::AccessDenied,
            Error::NoRecipeAvailable => Outcome::NothingToShow,
            Error::Inconsistent => Outcome::InternalFailure,
            Error::StorageUnavailable => Outcome::TemporarilyUnavailable,
        }
    }

    /// Whether the caller may try the request again.
    pub fn is_retryable(&self) -> (retry: bool)
        ensures
            retry == (*self == Error::StorageUnavailable),
    {
        match self {
            Error::StorageUnavailable => true,
            _ => false,
        }
    }
}

} // verus!
