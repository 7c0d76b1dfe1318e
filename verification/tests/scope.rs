use recipe_view::error::Error;
use recipe_view::scope::{is_active_member, may_see, visible_recipes};
use recipe_view::select::{select, Selector};
use recipe_view::store::{MembershipRow, Owner, RecipeRow, TEAM_OWNER_KIND, USER_OWNER_KIND};
use recipe_view::time::Timestamp;

fn recipe(id: i32, owner: Owner) -> RecipeRow {
    RecipeRow {
        id,
        name: format!("recipe {}", id),
        author: None,
        source: None,
        time: String::new(),
        servings: String::new(),
        tags: Vec::new(),
        created_at: None,
        archived_at: None,
        deleted_at: None,
        owner,
    }
}

fn member(user_id: i32, team_id: i32, is_active: bool) -> MembershipRow {
    MembershipRow { user_id, team_id, is_active }
}

#[test]
fn owner_is_resolved_from_the_reference() {
    assert_eq!(Owner::from_reference(7, USER_OWNER_KIND), Owner::User(7));
    assert_eq!(Owner::from_reference(7, TEAM_OWNER_KIND), Owner::Team(7));
    assert_eq!(Owner::from_reference(7, 1), Owner::User(7));
    assert_eq!(Owner::from_reference(7, 20), Owner::Team(7));
    assert_eq!(Owner::from_reference(7, 0), Owner::Unresolved);
    assert_eq!(Owner::from_reference(7, 2), Owner::Unresolved);
}

#[test]
fn owner_that_is_not_there_is_unresolved() {
    assert_eq!(Owner::resolve(1, Some(7), None), Owner::User(7));
    assert_eq!(Owner::resolve(20, None, Some(7)), Owner::Team(7));
    assert_eq!(Owner::resolve(1, None, Some(7)), Owner::Unresolved);
    assert_eq!(Owner::resolve(20, Some(7), None), Owner::Unresolved);
    assert_eq!(Owner::resolve(1, Some(7), Some(7)), Owner::User(7));
    assert_eq!(Owner::resolve(20, Some(7), Some(7)), Owner::Team(7));
    assert_eq!(Owner::resolve(3, Some(7), Some(7)), Owner::Unresolved);
    assert_eq!(Owner::resolve(1, None, None), Owner::Unresolved);
}

#[test]
fn own_recipes_are_visible() {
    let recipes = vec![recipe(1, Owner::User(1)), recipe(2, Owner::User(2)), recipe(3, Owner::User(1))];
    assert_eq!(visible_recipes(&recipes, &Vec::new(), 1), vec![1, 3]);
    assert_eq!(visible_recipes(&recipes, &Vec::new(), 2), vec![2]);
    assert_eq!(visible_recipes(&recipes, &Vec::new(), 3), Vec::<i32>::new());
}

#[test]
fn inactive_membership_hides_team_recipes() {
    let recipes = vec![recipe(42, Owner::Team(5))];
    let memberships = vec![member(1, 5, false)];
    assert_eq!(visible_recipes(&recipes, &memberships, 1), Vec::<i32>::new());
    assert!(!may_see(&recipes[0], &memberships, 1));
}

#[test]
fn activating_the_membership_reveals_team_recipes() {
    let recipes = vec![recipe(42, Owner::Team(5)), recipe(43, Owner::Team(6))];
    let mut memberships = vec![member(1, 5, false), member(2, 6, true)];
    assert_eq!(visible_recipes(&recipes, &memberships, 1), Vec::<i32>::new());
    memberships[0].is_active = true;
    assert_eq!(visible_recipes(&recipes, &memberships, 1), vec![42]);
    assert_eq!(visible_recipes(&recipes, &memberships, 2), vec![43]);
}

#[test]
fn membership_of_another_user_or_team_grants_nothing() {
    let recipes = vec![recipe(42, Owner::Team(5))];
    assert_eq!(visible_recipes(&recipes, &vec![member(2, 5, true)], 1), Vec::<i32>::new());
    assert_eq!(visible_recipes(&recipes, &vec![member(1, 6, true)], 1), Vec::<i32>::new());
    assert!(is_active_member(&vec![member(1, 6, false), member(1, 6, true)], 1, 6));
    assert!(!is_active_member(&vec![member(1, 6, false)], 1, 6));
    assert!(!is_active_member(&Vec::new(), 1, 6));
}

#[test]
fn a_team_id_is_not_a_user_id() {
    let recipes = vec![recipe(42, Owner::Team(1))];
    assert_eq!(visible_recipes(&recipes, &Vec::new(), 1), Vec::<i32>::new());
}

#[test]
fn unresolved_owner_is_seen_by_nobody() {
    let recipes = vec![recipe(42, Owner::Unresolved)];
    assert_eq!(visible_recipes(&recipes, &vec![member(1, 5, true)], 1), Vec::<i32>::new());
}

#[test]
fn deleted_recipes_are_not_visible() {
    let mut gone = recipe(42, Owner::User(1));
    gone.deleted_at = Some(Timestamp { micros: 1 });
    let mut archived = recipe(43, Owner::User(1));
    archived.archived_at = Some(Timestamp { micros: 1 });
    let recipes = vec![gone, archived];
    assert_eq!(visible_recipes(&recipes, &Vec::new(), 1), vec![43]);
}

#[test]
fn selecting_from_the_empty_scope_fails() {
    assert_eq!(select(&Vec::new(), Selector::Random { draw: 0 }), Err(Error::NoRecipeAvailable));
    assert_eq!(select(&Vec::new(), Selector::Random { draw: 17 }), Err(Error::NoRecipeAvailable));
    assert_eq!(select(&Vec::new(), Selector::Specific { id: 1 }), Err(Error::NoRecipeAvailable));
}

#[test]
fn random_selection_takes_the_draw_modulo_the_scope() {
    let scope = vec![10, 20, 30];
    assert_eq!(select(&scope, Selector::Random { draw: 0 }), Ok(10));
    assert_eq!(select(&scope, Selector::Random { draw: 1 }), Ok(20));
    assert_eq!(select(&scope, Selector::Random { draw: 2 }), Ok(30));
    assert_eq!(select(&scope, Selector::Random { draw: 3 }), Ok(10));
    assert_eq!(select(&scope, Selector::Random { draw: u64::MAX }), Ok(10));
    assert_eq!(select(&vec![7], Selector::Random { draw: 123_456 }), Ok(7));
}

#[test]
fn specific_selection_needs_the_id_in_scope() {
    let scope = vec![10, 20, 30];
    assert_eq!(select(&scope, Selector::Specific { id: 20 }), Ok(20));
    assert_eq!(select(&scope, Selector::Specific { id: 21 }), Err(Error::NoRecipeAvailable));
}
