//! Picking the recipe to show out of those that the user may see.

use crate::error::Error;
use crate::seqs::contains_id;
use vstd::prelude::*;

verus! {

/// How the recipe is picked.
#[derive(Clone, Copy, Debug, PartialEq, Eq, Structural)]
pub enum Selector {
    /// By a draw that the caller made: a uniform draw picks each recipe of
    /// the scope equally often.
    Random { draw: u64 },
    /// The recipe with this id, where it is in the scope.
    Specific { id: i32 },
}

/// The recipe that `selector` picks out of `scope`, if it picks one.
pub open spec fn selected(scope: Seq<i32>, selector: Selector) -> Option<i32> {
    match selector {
        Selector::Random { draw } => if scope.len() == 0 {
            None
        } else {
            Some(scope[(draw as int) % (scope.len() as int)])
        },
        Selector::Specific { id } => if scope.contains(id) {
            Some(id)
        } else {
            None
        },
    }
}

/// Whatever is picked is in the scope, and a random pick fails on the empty
/// scope only.
pub proof fn lemma_selected_in_scope(scope: Seq<i32>, selector: Selector)
    ensures
        selected(scope, selector) matches Some(id) ==> scope.contains(id),
        scope.len() == 0 ==> selected(scope, selector) is None,
        selector is Random && scope.len() > 0 ==> selected(scope, selector) is Some,
{
    if let Selector::Random { draw } = selector {
        if scope.len() > 0 {
            let at = (draw as int) % (scope.len() as int);
            assert(scope.contains(scope[at]));
        }
    }
}

/// Picks a recipe out of `scope`.
///
/// Fails with `NoRecipeAvailable` where the scope is empty, and where a
/// specific id is asked for that is not in it.
pub fn select(scope: &Vec<i32>, selector: Selector) -> (result: Result<i32, Error>)
    ensures
        result == match selected(scope@, selector) {
            Some(id) => Ok::<i32, Error>(id),
            None => Err::<i32, Error>(Error::NoRecipeAvailable),
        },
        result matches Ok(id) ==> scope@.contains(id),
        scope.len() == 0 ==> result == Err::<i32, Error>(Error::NoRecipeAvailable),
{
    proof {
        lemma_selected_in_scope(scope@, selector);
    }
    match selector {
        Selector::Random { draw } => {
            if scope.len() == 0 {
                Err(Error::NoRecipeAvailable)
            } else {
                let count: u64 = scope.len() as u64;
                let at: usize = (draw % count) as usize;
                Ok(scope[at])
            }
        },
        Selector::Specific { id } => {
            if contains_id(scope, id) {
                Ok(id)
            } else {
                Err(Error::NoRecipeAvailable)
            }
        },
    }
}

} // verus!
