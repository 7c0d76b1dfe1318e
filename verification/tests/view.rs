use recipe_view::assembler::{
    assemble_document, find_live_recipe, find_visible_recipe, get_recipe_view, handle_request,
    recipe_document,
};
use recipe_view::error::Error;
use recipe_view::model::{
    Identity, Ingredient, IngredientLike, NoteRecord, Reaction, Section, Step, TimelineEvent,
    TimelineLike,
};
use recipe_view::select::Selector;
use recipe_view::store::{MembershipRow, Owner, RecipeRow, Row, SessionRow, Store};
use recipe_view::time::Timestamp;

fn at(micros: i64) -> Timestamp {
    Timestamp { micros }
}

fn row<T>(parent_id: i32, item: T) -> Row<T> {
    Row { parent_id, deleted_at: None, item }
}

fn recipe(id: i32, owner: Owner) -> RecipeRow {
    RecipeRow {
        id,
        name: format!("recipe {}", id),
        author: None,
        source: None,
        time: "10m".to_string(),
        servings: "2".to_string(),
        tags: vec!["quick".to_string()],
        created_at: Some(at(1)),
        archived_at: None,
        deleted_at: None,
        owner,
    }
}

fn ingredient(id: i32, position: &str) -> Ingredient {
    Ingredient {
        id,
        position: position.to_string(),
        quantity: "1".to_string(),
        name: format!("ingredient {}", id),
        description: String::new(),
    }
}

fn fixture() -> Store {
    let mut store = Store::new();
    store.sessions = vec![SessionRow {
        session_key: "abc".to_string(),
        user_id: 1,
        expire_at: at(1_000),
    }];
    store.recipes = vec![recipe(42, Owner::User(1))];
    store.ingredients = vec![row(42, ingredient(1, "1")), row(42, ingredient(2, "2"))];
    store.sections =
        vec![row(42, Section { id: 1, title: "Sauce".to_string(), position: "1.5".to_string() })];
    store.steps =
        vec![row(42, Step { id: 1, position: "1".to_string(), text: "stir".to_string() })];
    store.notes = vec![row(
        42,
        NoteRecord {
            id: 7,
            text: "good".to_string(),
            created_at: at(100),
            modified_at: at(100),
            created_by: Some(Identity {
                email: Some("a@example.com".to_string()),
                name: Some("A".to_string()),
            }),
            modified_by: None,
        },
    )];
    store.reactions = vec![
        row(7, Reaction { id: 1, emoji: "+1".to_string(), created_by_id: 2, created_at: at(110) }),
        row(7, Reaction { id: 2, emoji: "<3".to_string(), created_by_id: 3, created_at: at(120) }),
    ];
    store.timeline_events = vec![row(
        42,
        TimelineEvent {
            id: 1,
            action: "scheduled".to_string(),
            created_at: at(200),
            created_by_id: Some(1),
            created_by_name: Some("a@example.com".to_string()),
        },
    )];
    store
}

fn label(entry: &IngredientLike) -> String {
    match entry {
        IngredientLike::Ingredient(i) => format!("Ingredient@{}", i.position),
        IngredientLike::Section(s) => format!("Section@{}", s.position),
    }
}

#[test]
fn end_to_end_view_of_an_owned_recipe() {
    let store = fixture();
    let document = get_recipe_view(&store, "abc", at(500), Selector::Random { draw: 0 }).unwrap();
    assert_eq!(document.id, 42);
    let labels: Vec<String> = document.ingredients.iter().map(label).collect();
    assert_eq!(labels, vec!["Ingredient@1", "Section@1.5", "Ingredient@2"]);
    assert_eq!(document.steps.len(), 1);
    assert_eq!(document.timeline.len(), 2);
    match &document.timeline[0] {
        TimelineLike::TimelineEvent(e) => assert_eq!(e.id, 1),
        TimelineLike::Note(_) => panic!("the event was expected first"),
    }
    match &document.timeline[1] {
        TimelineLike::Note(n) => {
            assert_eq!(n.id, 7);
            assert_eq!(n.reactions.len(), 2);
            assert_eq!(n.reactions[0].id, 2);
            assert_eq!(n.reactions[1].id, 1);
            assert_eq!(n.email, Some("a@example.com".to_string()));
        },
        TimelineLike::TimelineEvent(_) => panic!("the note was expected second"),
    }
}

#[test]
fn aggregation_is_repeatable() {
    let store = fixture();
    let first = recipe_document(&store, 42);
    let second = recipe_document(&store, 42);
    assert!(first.is_ok());
    assert_eq!(first, second);
    let first = get_recipe_view(&store, "abc", at(500), Selector::Specific { id: 42 });
    let second = get_recipe_view(&store, "abc", at(500), Selector::Specific { id: 42 });
    assert_eq!(first, second);
    assert_eq!(first, recipe_document(&store, 42));
}

#[test]
fn expired_token_gets_no_view() {
    let store = fixture();
    let selector = Selector::Random { draw: 0 };
    assert_eq!(get_recipe_view(&store, "abc", at(1_000), selector), Err(Error::Unauthenticated));
    assert_eq!(get_recipe_view(&store, "abc", at(5_000), selector), Err(Error::Unauthenticated));
    assert_eq!(get_recipe_view(&store, "xyz", at(500), selector), Err(Error::Unauthenticated));
}

#[test]
fn user_without_recipes_gets_no_recipe_available() {
    let mut store = fixture();
    store.sessions.push(SessionRow { session_key: "def".to_string(), user_id: 2, expire_at: at(1_000) });
    assert_eq!(
        get_recipe_view(&store, "def", at(500), Selector::Random { draw: 5 }),
        Err(Error::NoRecipeAvailable)
    );
    assert_eq!(
        get_recipe_view(&store, "abc", at(500), Selector::Specific { id: 43 }),
        Err(Error::NoRecipeAvailable)
    );
}

#[test]
fn team_recipe_is_viewed_through_an_active_membership() {
    let mut store = fixture();
    store.recipes = vec![recipe(42, Owner::Team(9))];
    store.memberships = vec![MembershipRow { user_id: 1, team_id: 9, is_active: false }];
    let selector = Selector::Random { draw: 0 };
    assert_eq!(get_recipe_view(&store, "abc", at(500), selector), Err(Error::NoRecipeAvailable));
    store.memberships[0].is_active = true;
    assert_eq!(get_recipe_view(&store, "abc", at(500), selector).unwrap().id, 42);
}

#[test]
fn missing_recipe_is_inconsistent() {
    let mut store = fixture();
    assert_eq!(recipe_document(&store, 43), Err(Error::Inconsistent));
    store.recipes[0].deleted_at = Some(at(5));
    assert_eq!(recipe_document(&store, 42), Err(Error::Inconsistent));
    assert!(find_live_recipe(&store.recipes, 42).is_none());
    assert!(find_visible_recipe(&store.recipes, &store.memberships, 1, 42).is_none());
}

#[test]
fn first_live_recipe_with_the_id_is_found() {
    let mut gone = recipe(42, Owner::User(1));
    gone.deleted_at = Some(at(5));
    gone.name = "gone".to_string();
    let mut kept = recipe(42, Owner::User(2));
    kept.name = "kept".to_string();
    let recipes = vec![recipe(41, Owner::User(1)), gone, kept];
    assert_eq!(find_live_recipe(&recipes, 42).unwrap().name, "kept");
    assert_eq!(find_live_recipe(&recipes, 41).unwrap().name, "recipe 41");
    assert!(find_visible_recipe(&recipes, &Vec::new(), 1, 42).is_none());
    assert_eq!(find_visible_recipe(&recipes, &Vec::new(), 2, 42).unwrap().name, "kept");
}

#[test]
fn request_without_token_is_unauthenticated() {
    let store = fixture();
    let selector = Selector::Random { draw: 0 };
    assert_eq!(handle_request(Some(&store), None, at(500), selector), Err(Error::Unauthenticated));
    assert_eq!(handle_request(None, None, at(500), selector), Err(Error::Unauthenticated));
}

#[test]
fn failed_read_is_storage_unavailable() {
    let selector = Selector::Random { draw: 0 };
    assert_eq!(
        handle_request(None, Some("abc"), at(500), selector),
        Err(Error::StorageUnavailable)
    );
}

#[test]
fn request_on_a_snapshot_is_served() {
    let store = fixture();
    let selector = Selector::Random { draw: 0 };
    assert_eq!(
        handle_request(Some(&store), Some("abc"), at(500), selector),
        get_recipe_view(&store, "abc", at(500), selector)
    );
    assert_eq!(handle_request(Some(&store), Some("abc"), at(500), selector).unwrap().id, 42);
}

#[test]
fn deleted_rows_leave_no_trace_in_the_document() {
    let clean = fixture();
    let mut store = fixture();
    store.ingredients.insert(1, Row { parent_id: 42, deleted_at: Some(at(3)), item: ingredient(9, "0") });
    store.sections.push(Row {
        parent_id: 42,
        deleted_at: Some(at(3)),
        item: Section { id: 9, title: "gone".to_string(), position: "0".to_string() },
    });
    store.steps.insert(0, Row {
        parent_id: 42,
        deleted_at: Some(at(3)),
        item: Step { id: 9, position: "0".to_string(), text: "gone".to_string() },
    });
    store.reactions.push(Row {
        parent_id: 7,
        deleted_at: Some(at(3)),
        item: Reaction { id: 9, emoji: "x".to_string(), created_by_id: 1, created_at: at(500) },
    });
    store.timeline_events.push(Row {
        parent_id: 42,
        deleted_at: Some(at(3)),
        item: TimelineEvent {
            id: 9,
            action: "gone".to_string(),
            created_at: at(900),
            created_by_id: None,
            created_by_name: None,
        },
    });
    let mut gone_note = clean.notes[0].clone();
    gone_note.item.id = 8;
    gone_note.deleted_at = Some(at(3));
    store.notes.push(gone_note);
    assert_eq!(recipe_document(&store, 42), recipe_document(&clean, 42));
}

#[test]
fn document_of_a_recipe_without_rows_is_bare() {
    let mut store = Store::new();
    store.recipes = vec![recipe(5, Owner::Unresolved)];
    let document = assemble_document(&store, &store.recipes[0]);
    assert_eq!(document.id, 5);
    assert_eq!(document.name, "recipe 5");
    assert_eq!(document.tags, vec!["quick".to_string()]);
    assert!(document.ingredients.is_empty());
    assert!(document.steps.is_empty());
    assert!(document.timeline.is_empty());
}
