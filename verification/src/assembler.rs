//! From a session token to the document of one recipe.
//!
//! The steps run in one order, each on the result of the one before: the
//! token is validated, the recipes that the user may see are listed, one is
//! picked, its rows are read and joined. A step that fails ends the request
//! with its error; no part of a document is returned.

use crate::aggregate::{
    ascends_by_position, assemble, assembled, is_latest_first, lemma_assembled_is_ordered,
    lemma_grouped_reactions_stay_sorted, note_entries, notes_of_records, event_entries,
};
use crate::error::Error;
use crate::fetch::{fetch_related, lemma_related_is_ordered, related_of};
use crate::model::{Reaction, Recipe, RecipeView, Step, TimelineLike, TimelineLikeView};
use crate::scope::{
    is_visible, lemma_visible_ids_are_the_visible, may_see, visible_ids, visible_recipes,
};
use crate::select::{lemma_selected_in_scope, select, selected, Selector};
use crate::seqs::{lemma_filter_empty, lemma_filter_take_step, lemma_first_kept};
use crate::session::{validate, validated_user};
use crate::sorting::{lemma_merge_elements, rank_order};
use crate::store::{MembershipRow, RecipeRow, RecipeRowView, Store, StoreView};
use crate::time::Timestamp;
use vstd::prelude::*;
use vstd::relations::sorted_by;

verus! {

/// What a request returns, with the document as its model.
pub open spec fn document_view(result: Result<Recipe, Error>) -> Result<RecipeView, Error> {
    match result {
        Ok(document) => Ok(document@),
        Err(error) => Err(error),
    }
}

/// The reactions of a note of the timeline come latest first.
pub open spec fn has_sorted_reactions(entry: TimelineLikeView) -> bool {
    entry matches TimelineLikeView::Note(note) ==> sorted_by(
        note.reactions,
        rank_order::<Reaction>(),
    )
}

/// Every sequence of the document is in its order: the ingredient list by
/// position across ingredients and sections, the steps by position, the
/// timeline latest first across events and notes (events in front of notes
/// created at once, then by id), and the reactions of each note latest first.
pub open spec fn is_ordered_document(document: RecipeView) -> bool {
    &&& ascends_by_position(document.ingredients)
    &&& sorted_by(document.steps, rank_order::<Step>())
    &&& sorted_by(document.timeline, rank_order::<TimelineLike>())
    &&& is_latest_first(document.timeline)
    &&& forall|k: int|
        0 <= k < document.timeline.len() ==> has_sorted_reactions(#[trigger] document.timeline[k])
}

/// The test that picks the live recipes with one id.
pub open spec fn is_live_with_id(recipe_id: i32) -> spec_fn(RecipeRowView) -> bool {
    |recipe: RecipeRowView| recipe.is_live() && recipe.id == recipe_id
}

/// The first recipe with the id `recipe_id` that is not marked as deleted.
pub open spec fn live_recipe(recipes: Seq<RecipeRowView>, recipe_id: i32) -> Option<RecipeRowView> {
    let found = recipes.filter(is_live_with_id(recipe_id));
    if found.len() > 0 {
        Some(found.first())
    } else {
        None
    }
}

/// The test that picks the recipes with one id that a user may see.
pub open spec fn is_visible_with_id(
    memberships: Seq<MembershipRow>,
    user_id: i32,
    recipe_id: i32,
) -> spec_fn(RecipeRowView) -> bool {
    |recipe: RecipeRowView| recipe.id == recipe_id && is_visible(recipe, memberships, user_id)
}

/// The first recipe with the id `recipe_id` that `user_id` may see.
pub open spec fn visible_recipe(
    recipes: Seq<RecipeRowView>,
    memberships: Seq<MembershipRow>,
    user_id: i32,
    recipe_id: i32,
) -> Option<RecipeRowView> {
    let found = recipes.filter(is_visible_with_id(memberships, user_id, recipe_id));
    if found.len() > 0 {
        Some(found.first())
    } else {
        None
    }
}

/// The document of `recipe`, from the rows that the store holds for it.
pub open spec fn document_for(store: StoreView, recipe: RecipeRowView) -> RecipeView {
    assembled(recipe, related_of(store, seq![recipe.id]))
}

/// What the aggregation returns for the recipe `recipe_id`: its document, or
/// `Inconsistent` where the store holds no live recipe with that id.
pub open spec fn document_of(store: StoreView, recipe_id: i32) -> Result<RecipeView, Error> {
    match live_recipe(store.recipes, recipe_id) {
        Some(recipe) => Ok(document_for(store, recipe)),
        None => Err(Error::Inconsistent),
    }
}

/// What a request with `token` at `now` returns.
pub open spec fn recipe_view_of(
    store: StoreView,
    token: Seq<char>,
    now: int,
    selector: Selector,
) -> Result<RecipeView, Error> {
    match validated_user(store.sessions, token, now) {
        None => Err(Error::Unauthenticated),
        Some(user_id) => match selected(
            visible_ids(store.recipes, store.memberships, user_id),
            selector,
        ) {
            None => Err(Error::NoRecipeAvailable),
            Some(recipe_id) => match visible_recipe(
                store.recipes,
                store.memberships,
                user_id,
                recipe_id,
            ) {
                Some(recipe) => Ok(document_for(store, recipe)),
                None => Err(Error::Inconsistent),
            },
        },
    }
}

/// The document of a recipe is ordered, whatever the store holds.
pub proof fn lemma_document_is_ordered(store: StoreView, recipe: RecipeRowView)
    ensures
        is_ordered_document(document_for(store, recipe)),
{
    let related = related_of(store, seq![recipe.id]);
    lemma_related_is_ordered(store, seq![recipe.id]);
    lemma_assembled_is_ordered(recipe, related);
    let document = document_for(store, recipe);
    let notes = notes_of_records(related.notes, related.reactions);
    assert forall|k: int| 0 <= k < document.timeline.len() implies has_sorted_reactions(
        #[trigger] document.timeline[k],
    ) by {
        let entry = document.timeline[k];
        lemma_merge_elements(
            event_entries(related.timeline_events),
            note_entries(notes),
            rank_order::<TimelineLike>(),
            k,
        );
        if let TimelineLikeView::Note(note) = entry {
            let j = choose|j: int| 0 <= j < note_entries(notes).len() && note_entries(notes)[j] == entry;
            lemma_grouped_reactions_stay_sorted(related.notes[j].id, related.reactions);
        }
    }
}

/// Within one snapshot a request ends with a document, with
/// `Unauthenticated` or with `NoRecipeAvailable`: the recipe that was picked
/// is there, and nothing is read that could fail.
pub proof fn lemma_view_fails_only_at_the_door(
    store: StoreView,
    token: Seq<char>,
    now: int,
    selector: Selector,
)
    ensures
        recipe_view_of(store, token, now, selector) matches Err(error) ==> error
            == Error::Unauthenticated || error == Error::NoRecipeAvailable,
        recipe_view_of(store, token, now, selector) matches Ok(document) ==> is_ordered_document(
            document,
        ),
{
    if let Some(user_id) = validated_user(store.sessions, token, now) {
        let scope = visible_ids(store.recipes, store.memberships, user_id);
        if let Some(recipe_id) = selected(scope, selector) {
            lemma_selected_in_scope(scope, selector);
            lemma_visible_ids_are_the_visible(
                store.recipes,
                store.memberships,
                user_id,
                recipe_id,
            );
            let i = choose|i: int|
                0 <= i < store.recipes.len() && (#[trigger] store.recipes[i]).id == recipe_id
                    && is_visible(store.recipes[i], store.memberships, user_id);
            let keep = is_visible_with_id(store.memberships, user_id, recipe_id);
            store.recipes.lemma_filter_contains(keep, i);
            let found = visible_recipe(store.recipes, store.memberships, user_id, recipe_id);
            lemma_document_is_ordered(store, found->0);
        }
    }
}

/// The document that a request returns is that of a recipe that the user of
/// the session may see.
pub proof fn lemma_view_shows_a_visible_recipe(
    store: StoreView,
    token: Seq<char>,
    now: int,
    selector: Selector,
)
    requires
        recipe_view_of(store, token, now, selector) is Ok,
    ensures
        validated_user(store.sessions, token, now) matches Some(user_id) && exists|i: int|
            0 <= i < store.recipes.len() && is_visible(
                #[trigger] store.recipes[i],
                store.memberships,
                user_id,
            ) && recipe_view_of(store, token, now, selector) == Ok::<RecipeView, Error>(
                document_for(store, store.recipes[i]),
            ),
{
    let user_id = validated_user(store.sessions, token, now)->0;
    let scope = visible_ids(store.recipes, store.memberships, user_id);
    let recipe_id = selected(scope, selector)->0;
    let keep = is_visible_with_id(store.memberships, user_id, recipe_id);
    crate::seqs::lemma_filter_kept(store.recipes, keep, 0);
}

/// A result is what the aggregation returns for `recipe_id` on `store`.
pub open spec fn is_document_of(result: Result<Recipe, Error>, store: StoreView, recipe_id: i32) -> bool {
    document_view(result) == document_of(store, recipe_id)
}

/// Two runs of the aggregation on one store and one recipe id return the same
/// document, or the same error.
pub proof fn lemma_aggregation_is_repeatable(
    store: StoreView,
    recipe_id: i32,
    first: Result<Recipe, Error>,
    second: Result<Recipe, Error>,
)
    requires
        is_document_of(first, store, recipe_id),
        is_document_of(second, store, recipe_id),
    ensures
        document_view(first) == document_view(second),
{
}

/// Two requests with one token at one instant on one store return the same
/// document, or the same error.
pub proof fn lemma_view_is_repeatable(
    store: StoreView,
    token: Seq<char>,
    now: int,
    selector: Selector,
    first: Result<Recipe, Error>,
    second: Result<Recipe, Error>,
)
    requires
        document_view(first) == recipe_view_of(store, token, now, selector),
        document_view(second) == recipe_view_of(store, token, now, selector),
    ensures
        document_view(first) == document_view(second),
{
}

/// The first recipe with the id `recipe_id` that is not marked as deleted.
pub fn find_live_recipe<'a>(recipes: &'a Vec<RecipeRow>, recipe_id: i32) -> (found: Option<
    &'a RecipeRow,
>)
    ensures
        match found {
            Some(recipe) => live_recipe(recipes.deep_view(), recipe_id) == Some(recipe@),
            None => live_recipe(recipes.deep_view(), recipe_id) is None,
        },
{
    let ghost rows = recipes.deep_view();
    let ghost keep = is_live_with_id(recipe_id);
    proof {
        lemma_filter_empty(keep);
    }
    let mut i: usize = 0;
    while i < recipes.len()
        invariant
            i <= recipes.len(),
            rows == recipes.deep_view(),
            keep == is_live_with_id(recipe_id),
            rows.take(i as int).filter(keep).len() == 0,
        decreases recipes.len() - i,
    {
        let recipe = &recipes[i];
        proof {
            lemma_filter_take_step(rows, i as int, keep);
        }
        if recipe.deleted_at.is_none() && recipe.id == recipe_id {
            proof {
                lemma_first_kept(rows, keep, i as int);
            }
            return Some(recipe);
        }
        i += 1;
    }
    proof {
        assert(rows.take(i as int) =~= rows);
    }
    None
}

/// The first recipe with the id `recipe_id` that `user_id` may see.
pub fn find_visible_recipe<'a>(
    recipes: &'a Vec<RecipeRow>,
    memberships: &Vec<MembershipRow>,
    user_id: i32,
    recipe_id: i32,
) -> (found: Option<&'a RecipeRow>)
    ensures
        match found {
            Some(recipe) => visible_recipe(
                recipes.deep_view(),
                memberships.deep_view(),
                user_id,
                recipe_id,
            ) == Some(recipe@),
            None => visible_recipe(recipes.deep_view(), memberships.deep_view(), user_id, recipe_id)
                is None,
        },
{
    let ghost rows = recipes.deep_view();
    let ghost keep = is_visible_with_id(memberships.deep_view(), user_id, recipe_id);
    proof {
        lemma_filter_empty(keep);
    }
    let mut i: usize = 0;
    while i < recipes.len()
        invariant
            i <= recipes.len(),
            rows == recipes.deep_view(),
            keep == is_visible_with_id(memberships.deep_view(), user_id, recipe_id),
            rows.take(i as int).filter(keep).len() == 0,
        decreases recipes.len() - i,
    {
        let recipe = &recipes[i];
        proof {
            lemma_filter_take_step(rows, i as int, keep);
        }
        if recipe.id == recipe_id && may_see(recipe, memberships, user_id) {
            proof {
                lemma_first_kept(rows, keep, i as int);
            }
            return Some(recipe);
        }
        i += 1;
    }
    proof {
        assert(rows.take(i as int) =~= rows);
    }
    None
}

/// Reads the rows of `recipe` and joins them into its document.
pub fn assemble_document(store: &Store, recipe: &RecipeRow) -> (document: Recipe)
    ensures
        document@ == document_for(store@, recipe@),
        is_ordered_document(document@),
{
    let mut recipe_ids: Vec<i32> = Vec::new();
    recipe_ids.push(recipe.id);
    proof {
        lemma_document_is_ordered(store@, recipe@);
    }
    let related = fetch_related(store, &recipe_ids);
    assemble(recipe, related)
}

/// The aggregation: reads and joins the rows of the recipe `recipe_id`.
///
/// Fails with `Inconsistent` where the store holds no recipe with that id
/// that is not marked as deleted: an empty document is never returned in its
/// place.
pub fn recipe_document(store: &Store, recipe_id: i32) -> (result: Result<Recipe, Error>)
    ensures
        is_document_of(result, store@, recipe_id),
        result is Ok <==> live_recipe(store@.recipes, recipe_id) is Some,
        result matches Err(error) ==> error == Error::Inconsistent,
        result matches Ok(document) ==> document@.id == recipe_id && is_ordered_document(
            document@,
        ),
{
    match find_live_recipe(&store.recipes, recipe_id) {
        Some(recipe) => {
            proof {
                crate::seqs::lemma_filter_kept(store@.recipes, is_live_with_id(recipe_id), 0);
            }
            Ok(assemble_document(store, recipe))
        },
        None => Err(Error::Inconsistent),
    }
}

/// Serves one request: validates `token` at the instant `now`, lists the
/// recipes that its user may see, picks one by `selector`, and returns its
/// document.
///
/// `now` is the one instant of the whole request. Fails with
/// `Unauthenticated` where the token is not let in, and with
/// `NoRecipeAvailable` where nothing is picked.
pub fn get_recipe_view(store: &Store, token: &str, now: Timestamp, selector: Selector) -> (result:
    Result<Recipe, Error>)
    ensures
        document_view(result) == recipe_view_of(store@, token@, now@, selector),
        result matches Err(error) ==> error == Error::Unauthenticated || error
            == Error::NoRecipeAvailable,
        result matches Ok(document) ==> is_ordered_document(document@),
{
    proof {
        lemma_view_fails_only_at_the_door(store@, token@, now@, selector);
    }
    let user_id = match validate(&store.sessions, token, now) {
        Ok(user_id) => user_id,
        Err(error) => {
            return Err(error);
        },
    };
    let scope = visible_recipes(&store.recipes, &store.memberships, user_id);
    let recipe_id = match select(&scope, selector) {
        Ok(recipe_id) => recipe_id,
        Err(error) => {
            return Err(error);
        },
    };
    match find_visible_recipe(&store.recipes, &store.memberships, user_id, recipe_id) {
        Some(recipe) => Ok(assemble_document(store, recipe)),
        None => Err(Error::Inconsistent),
    }
}

/// What a request returns at the boundary: `Unauthenticated` where no token
/// came with it, `StorageUnavailable` where the store could not be read, and
/// else what `recipe_view_of` says.
pub open spec fn response_of(
    snapshot: Option<StoreView>,
    token: Option<Seq<char>>,
    now: int,
    selector: Selector,
) -> Result<RecipeView, Error> {
    match token {
        None => Err(Error::Unauthenticated),
        Some(token) => match snapshot {
            None => Err(Error::StorageUnavailable),
            Some(store) => recipe_view_of(store, token, now, selector),
        },
    }
}

/// Serves one request as it arrives at the boundary: `token` is what the
/// transport found, `snapshot` what the read of the store gave.
///
/// A request without a token is not let in, whatever the store holds. A
/// failed read ends the request; it is not tried again here.
pub fn handle_request(
    snapshot: Option<&Store>,
    token: Option<&str>,
    now: Timestamp,
    selector: Selector,
) -> (result: Result<Recipe, Error>)
    ensures
        document_view(result) == response_of(
            match snapshot {
                Some(store) => Some(store@),
                None => None,
            },
            match token {
                Some(token) => Some(token@),
                None => None,
            },
            now@,
            selector,
        ),
        result matches Err(error) ==> error != Error::Inconsistent,
        result matches Ok(document) ==> is_ordered_document(document@),
{
    match token {
        None => Err(Error::Unauthenticated),
        Some(token) => match snapshot {
            None => Err(Error::StorageUnavailable),
            Some(store) => get_recipe_view(store, token, now, selector),
        },
    }
}

} // verus!
