use recipe_view::fetch::{
    fetch_ingredients, fetch_notes, fetch_reactions, fetch_related, fetch_sections, fetch_steps,
    fetch_timeline_events, keep_authored, note_ids, read_live_items, read_live_rows,
};
use recipe_view::model::{
    Identity, Ingredient, NoteRecord, Reaction, Section, Step, TimelineEvent,
};
use recipe_view::store::{Row, Store};
use recipe_view::time::Timestamp;

fn at(micros: i64) -> Timestamp {
    Timestamp { micros }
}

fn row<T>(parent_id: i32, item: T) -> Row<T> {
    Row { parent_id, deleted_at: None, item }
}

fn deleted<T>(parent_id: i32, item: T) -> Row<T> {
    Row { parent_id, deleted_at: Some(at(1)), item }
}

fn ingredient(id: i32, position: &str) -> Ingredient {
    Ingredient {
        id,
        position: position.to_string(),
        quantity: "1".to_string(),
        name: format!("ingredient {}", id),
        description: String::new(),
    }
}

fn section(id: i32, position: &str) -> Section {
    Section { id, title: format!("section {}", id), position: position.to_string() }
}

fn step(id: i32, position: &str) -> Step {
    Step { id, position: position.to_string(), text: format!("step {}", id) }
}

fn author() -> Option<Identity> {
    Some(Identity { email: Some("a@example.com".to_string()), name: Some("A".to_string()) })
}

fn note(id: i32, created_at: i64, created_by: Option<Identity>) -> NoteRecord {
    NoteRecord {
        id,
        text: format!("note {}", id),
        created_at: at(created_at),
        modified_at: at(created_at),
        created_by,
        modified_by: None,
    }
}

fn reaction(id: i32, created_at: i64) -> Reaction {
    Reaction { id, emoji: "+1".to_string(), created_by_id: 1, created_at: at(created_at) }
}

fn event(id: i32, created_at: i64) -> TimelineEvent {
    TimelineEvent {
        id,
        action: "created".to_string(),
        created_at: at(created_at),
        created_by_id: None,
        created_by_name: None,
    }
}

#[test]
fn deleted_ingredients_are_not_fetched() {
    let mut store = Store::new();
    store.ingredients = vec![
        row(42, ingredient(1, "1")),
        deleted(42, ingredient(2, "2")),
        row(42, ingredient(3, "3")),
    ];
    let fetched = fetch_ingredients(&store, &vec![42]);
    assert_eq!(fetched, vec![ingredient(1, "1"), ingredient(3, "3")]);
}

#[test]
fn deleted_sections_are_not_fetched() {
    let mut store = Store::new();
    store.sections = vec![deleted(42, section(1, "1")), row(42, section(2, "2"))];
    assert_eq!(fetch_sections(&store, &vec![42]), vec![section(2, "2")]);
}

#[test]
fn deleted_steps_are_not_fetched() {
    let mut store = Store::new();
    store.steps = vec![row(42, step(1, "1")), deleted(42, step(2, "2"))];
    assert_eq!(fetch_steps(&store, &vec![42]), vec![step(1, "1")]);
}

#[test]
fn deleted_notes_are_not_fetched() {
    let mut store = Store::new();
    store.notes = vec![deleted(42, note(1, 10, author())), row(42, note(2, 20, author()))];
    assert_eq!(fetch_notes(&store, &vec![42]), vec![note(2, 20, author())]);
}

#[test]
fn deleted_reactions_are_not_fetched() {
    let mut store = Store::new();
    store.notes = vec![row(42, note(7, 10, author()))];
    store.reactions = vec![deleted(7, reaction(1, 10)), row(7, reaction(2, 20))];
    assert_eq!(fetch_reactions(&store, &vec![42]), vec![row(7, reaction(2, 20))]);
}

#[test]
fn deleted_timeline_events_are_not_fetched() {
    let mut store = Store::new();
    store.timeline_events = vec![row(42, event(1, 10)), deleted(42, event(2, 20))];
    assert_eq!(fetch_timeline_events(&store, &vec![42]), vec![event(1, 10)]);
}

#[test]
fn rows_of_other_recipes_are_not_fetched() {
    let mut store = Store::new();
    store.ingredients = vec![row(41, ingredient(1, "1")), row(42, ingredient(2, "2"))];
    store.steps = vec![row(41, step(1, "1")), row(42, step(2, "2"))];
    assert_eq!(fetch_ingredients(&store, &vec![42]), vec![ingredient(2, "2")]);
    assert_eq!(fetch_steps(&store, &vec![41]), vec![step(1, "1")]);
    assert_eq!(fetch_steps(&store, &vec![40]), Vec::<Step>::new());
    assert_eq!(fetch_steps(&store, &Vec::new()), Vec::<Step>::new());
}

#[test]
fn a_set_of_recipes_is_fetched_at_once() {
    let mut store = Store::new();
    store.steps = vec![row(41, step(1, "2")), row(42, step(2, "1")), row(43, step(3, "0"))];
    assert_eq!(fetch_steps(&store, &vec![41, 42]), vec![step(2, "1"), step(1, "2")]);
}

#[test]
fn ingredients_and_steps_come_by_position() {
    let mut store = Store::new();
    store.ingredients = vec![
        row(42, ingredient(1, "2")),
        row(42, ingredient(2, "1.5")),
        row(42, ingredient(3, "1")),
    ];
    store.steps = vec![row(42, step(1, "b")), row(42, step(2, "a")), row(42, step(3, "b"))];
    let fetched: Vec<i32> = fetch_ingredients(&store, &vec![42]).iter().map(|i| i.id).collect();
    assert_eq!(fetched, vec![3, 2, 1]);
    let fetched: Vec<i32> = fetch_steps(&store, &vec![42]).iter().map(|s| s.id).collect();
    assert_eq!(fetched, vec![2, 1, 3]);
}

#[test]
fn notes_reactions_and_events_come_latest_first() {
    let mut store = Store::new();
    store.notes = vec![
        row(42, note(1, 10, author())),
        row(42, note(2, 30, author())),
        row(42, note(3, 20, author())),
    ];
    store.reactions = vec![row(1, reaction(1, 5)), row(2, reaction(2, 7)), row(1, reaction(3, 6))];
    store.timeline_events = vec![row(42, event(1, 1)), row(42, event(2, 3)), row(42, event(3, 2))];
    let fetched: Vec<i32> = fetch_notes(&store, &vec![42]).iter().map(|n| n.id).collect();
    assert_eq!(fetched, vec![2, 3, 1]);
    let fetched: Vec<i32> = fetch_reactions(&store, &vec![42]).iter().map(|r| r.item.id).collect();
    assert_eq!(fetched, vec![2, 3, 1]);
    let fetched: Vec<i32> = fetch_timeline_events(&store, &vec![42]).iter().map(|e| e.id).collect();
    assert_eq!(fetched, vec![2, 3, 1]);
}

#[test]
fn rows_created_at_once_come_by_id() {
    let mut store = Store::new();
    store.timeline_events = vec![row(42, event(3, 5)), row(42, event(1, 5)), row(42, event(2, 5))];
    let fetched: Vec<i32> = fetch_timeline_events(&store, &vec![42]).iter().map(|e| e.id).collect();
    assert_eq!(fetched, vec![1, 2, 3]);
}

#[test]
fn notes_without_author_are_not_fetched() {
    let mut store = Store::new();
    store.notes = vec![row(42, note(1, 10, None)), row(42, note(2, 20, author()))];
    assert_eq!(fetch_notes(&store, &vec![42]), vec![note(2, 20, author())]);
    assert_eq!(keep_authored(&vec![note(1, 10, None)]), Vec::<NoteRecord>::new());
}

#[test]
fn reactions_are_reached_through_their_note() {
    let mut store = Store::new();
    store.notes = vec![row(42, note(7, 10, author())), row(43, note(8, 10, author()))];
    store.reactions = vec![row(7, reaction(1, 10)), row(8, reaction(2, 20)), row(9, reaction(3, 30))];
    assert_eq!(fetch_reactions(&store, &vec![42]), vec![row(7, reaction(1, 10))]);
    assert_eq!(fetch_reactions(&store, &vec![43]), vec![row(8, reaction(2, 20))]);
    assert_eq!(note_ids(&store.notes, &vec![42, 43]), vec![7, 8]);
    assert_eq!(note_ids(&store.notes, &vec![44]), Vec::<i32>::new());
}

#[test]
fn read_live_rows_keeps_table_order() {
    let table = vec![row(1, step(1, "z")), deleted(1, step(2, "a")), row(2, step(3, "b")), row(1, step(4, "c"))];
    assert_eq!(read_live_rows(&table, &vec![1]), vec![row(1, step(1, "z")), row(1, step(4, "c"))]);
    assert_eq!(read_live_items(&table, &vec![1, 2]), vec![step(1, "z"), step(3, "b"), step(4, "c")]);
}

#[test]
fn fetch_related_reads_all_six_tables() {
    let mut store = Store::new();
    store.ingredients = vec![row(42, ingredient(1, "1")), deleted(42, ingredient(2, "2"))];
    store.sections = vec![row(42, section(1, "1")), deleted(42, section(2, "2"))];
    store.steps = vec![row(42, step(1, "1")), deleted(42, step(2, "2"))];
    store.notes = vec![row(42, note(1, 1, author())), deleted(42, note(2, 2, author()))];
    store.reactions = vec![row(1, reaction(1, 1)), deleted(1, reaction(2, 2))];
    store.timeline_events = vec![row(42, event(1, 1)), deleted(42, event(2, 2))];
    let related = fetch_related(&store, &vec![42]);
    assert_eq!(related.ingredients, vec![ingredient(1, "1")]);
    assert_eq!(related.sections, vec![section(1, "1")]);
    assert_eq!(related.steps, vec![step(1, "1")]);
    assert_eq!(related.notes, vec![note(1, 1, author())]);
    assert_eq!(related.reactions, vec![row(1, reaction(1, 1))]);
    assert_eq!(related.timeline_events, vec![event(1, 1)]);
}
