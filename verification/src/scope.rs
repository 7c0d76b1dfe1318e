//! Which recipes a user may see.

use crate::seqs::{lemma_filter_empty, lemma_filter_kept, lemma_filter_take_step};
use crate::store::{MembershipRow, Owner, RecipeRow, RecipeRowView};
use vstd::prelude::*;

verus! {

/// Some membership row binds `user_id` to `team_id` and is active.
pub open spec fn has_active_membership(
    memberships: Seq<MembershipRow>,
    user_id: i32,
    team_id: i32,
) -> bool {
    exists|i: int|
        0 <= i < memberships.len() && (#[trigger] memberships[i]).user_id == user_id
            && memberships[i].team_id == team_id && memberships[i].is_active
}

/// `user_id` may see `recipe`: the recipe is not deleted, and it belongs to
/// the user or to a team of which the user is an active member. A recipe whose
/// owner cannot be resolved is seen by nobody.
pub open spec fn is_visible(recipe: RecipeRowView, memberships: Seq<MembershipRow>, user_id: i32) -> bool {
    recipe.is_live() && match recipe.owner {
        Owner::User(owner_id) => owner_id == user_id,
        Owner::Team(team_id) => has_active_membership(memberships, user_id, team_id),
        Owner::Unresolved => false,
    }
}

/// `is_visible` as a test on recipes.
pub open spec fn visible_to(memberships: Seq<MembershipRow>, user_id: i32) -> spec_fn(
    RecipeRowView,
) -> bool {
    |recipe: RecipeRowView| is_visible(recipe, memberships, user_id)
}

/// The ids of the recipes that `user_id` may see, in the order of the table.
pub open spec fn visible_ids(
    recipes: Seq<RecipeRowView>,
    memberships: Seq<MembershipRow>,
    user_id: i32,
) -> Seq<i32> {
    recipes.filter(visible_to(memberships, user_id)).map_values(|recipe: RecipeRowView| recipe.id)
}

/// An id is in the scope exactly if a recipe with that id is visible.
pub proof fn lemma_visible_ids_are_the_visible(
    recipes: Seq<RecipeRowView>,
    memberships: Seq<MembershipRow>,
    user_id: i32,
    id: i32,
)
    ensures
        visible_ids(recipes, memberships, user_id).contains(id) <==> exists|i: int|
            0 <= i < recipes.len() && (#[trigger] recipes[i]).id == id && is_visible(
                recipes[i],
                memberships,
                user_id,
            ),
{
    let keep = visible_to(memberships, user_id);
    let kept = recipes.filter(keep);
    let ids = visible_ids(recipes, memberships, user_id);
    if ids.contains(id) {
        let k = choose|k: int| 0 <= k < ids.len() && ids[k] == id;
        lemma_filter_kept(recipes, keep, k);
    }
    if exists|i: int|
        0 <= i < recipes.len() && (#[trigger] recipes[i]).id == id && is_visible(
            recipes[i],
            memberships,
            user_id,
        ) {
        let i = choose|i: int|
            0 <= i < recipes.len() && (#[trigger] recipes[i]).id == id && is_visible(
                recipes[i],
                memberships,
                user_id,
            );
        recipes.lemma_filter_contains(keep, i);
        let k = choose|k: int| 0 <= k < kept.len() && kept[k] == recipes[i];
        assert(ids[k] == id);
    }
}

/// A recipe of a team is hidden from a user whose memberships of that team
/// are all inactive.
pub proof fn lemma_inactive_membership_hides(
    recipe: RecipeRowView,
    memberships: Seq<MembershipRow>,
    user_id: i32,
    team_id: i32,
)
    requires
        recipe.owner == Owner::Team(team_id),
        forall|i: int|
            0 <= i < memberships.len() && (#[trigger] memberships[i]).user_id == user_id
                && memberships[i].team_id == team_id ==> !memberships[i].is_active,
    ensures
        !is_visible(recipe, memberships, user_id),
{
}

/// Activating a membership, and nothing else, makes the live recipes of its
/// team visible to its user.
pub proof fn lemma_activation_reveals(
    recipe: RecipeRowView,
    memberships: Seq<MembershipRow>,
    at: int,
)
    requires
        0 <= at < memberships.len(),
        recipe.is_live(),
        recipe.owner == Owner::Team(memberships[at].team_id),
    ensures
        is_visible(
            recipe,
            memberships.update(
                at,
                MembershipRow {
                    user_id: memberships[at].user_id,
                    team_id: memberships[at].team_id,
                    is_active: true,
                },
            ),
            memberships[at].user_id,
        ),
{
    let activated = memberships.update(
        at,
        MembershipRow {
            user_id: memberships[at].user_id,
            team_id: memberships[at].team_id,
            is_active: true,
        },
    );
    assert(activated[at].user_id == memberships[at].user_id && activated[at].team_id
        == memberships[at].team_id && activated[at].is_active);
}

/// Whether an active membership binds `user_id` to `team_id`.
pub fn is_active_member(memberships: &Vec<MembershipRow>, user_id: i32, team_id: i32) -> (active:
    bool)
    ensures
        active == has_active_membership(memberships.deep_view(), user_id, team_id),
{
    let ghost rows = memberships.deep_view();
    let mut i: usize = 0;
    while i < memberships.len()
        invariant
            i <= memberships.len(),
            rows == memberships.deep_view(),
            forall|j: int|
                0 <= j < i ==> !((#[trigger] rows[j]).user_id == user_id && rows[j].team_id
                    == team_id && rows[j].is_active),
        decreases memberships.len() - i,
    {
        let row = &memberships[i];
        assert(rows[i as int] == *row);
        if row.user_id == user_id && row.team_id == team_id && row.is_active {
            return true;
        }
        i += 1;
    }
    false
}

/// Whether `user_id` may see `recipe`.
pub fn may_see(recipe: &RecipeRow, memberships: &Vec<MembershipRow>, user_id: i32) -> (visible:
    bool)
    ensures
        visible == is_visible(recipe@, memberships.deep_view(), user_id),
{
    if recipe.deleted_at.is_some() {
        return false;
    }
    match recipe.owner {
        Owner::User(owner_id) => owner_id == user_id,
        Owner::Team(team_id) => is_active_member(memberships, user_id, team_id),
        Owner::Unresolved => false,
    }
}

/// The ids of the recipes that `user_id` may see, in the order of the table.
/// The list is empty where the user may see none: that is no error.
pub fn visible_recipes(recipes: &Vec<RecipeRow>, memberships: &Vec<MembershipRow>, user_id: i32) -> (ids:
    Vec<i32>)
    ensures
        ids@ == visible_ids(recipes.deep_view(), memberships.deep_view(), user_id),
        forall|id: i32|
            ids@.contains(id) <==> exists|i: int|
                0 <= i < recipes.len() && (#[trigger] recipes.deep_view()[i]).id == id
                    && is_visible(recipes.deep_view()[i], memberships.deep_view(), user_id),
{
    let ghost rows = recipes.deep_view();
    let ghost keep = visible_to(memberships.deep_view(), user_id);
    let mut ids: Vec<i32> = Vec::new();
    proof {
        lemma_filter_empty(keep);
    }
    let mut i: usize = 0;
    while i < recipes.len()
        invariant
            i <= recipes.len(),
            rows == recipes.deep_view(),
            keep == visible_to(memberships.deep_view(), user_id),
            ids@ == rows.take(i as int).filter(keep).map_values(|recipe: RecipeRowView| recipe.id),
        decreases recipes.len() - i,
    {
        let recipe = &recipes[i];
        proof {
            lemma_filter_take_step(rows, i as int, keep);
        }
        if may_see(recipe, memberships, user_id) {
            ids.push(recipe.id);
        }
        i += 1;
    }
    proof {
        assert(rows.take(i as int) =~= rows);
        assert forall|id: i32|
            ids@.contains(id) <==> exists|i: int|
                0 <= i < rows.len() && (#[trigger] rows[i]).id == id && is_visible(
                    rows[i],
                    memberships.deep_view(),
                    user_id,
                ) by {
            lemma_visible_ids_are_the_visible(rows, memberships.deep_view(), user_id, id);
        }
    }
    ids
}

} // verus!
