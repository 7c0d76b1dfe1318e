use recipe_view::aggregate::{
    assemble, attach_reactions, group_reactions, merge_ingredient_like, merge_timeline,
    reactions_for,
};
use recipe_view::fetch::Related;
use recipe_view::model::{
    Identity, Ingredient, IngredientLike, Note, NoteRecord, Reaction, Section, Step,
    TimelineEvent, TimelineLike,
};
use recipe_view::replicate::Replicate;
use recipe_view::sorting::Ranked;
use recipe_view::store::{Owner, RecipeRow, Row};
use recipe_view::time::Timestamp;

fn at(micros: i64) -> Timestamp {
    Timestamp { micros }
}

fn ingredient(id: i32, position: &str) -> Ingredient {
    Ingredient {
        id,
        position: position.to_string(),
        quantity: "1".to_string(),
        name: format!("ingredient {}", id),
        description: String::new(),
    }
}

fn section(id: i32, position: &str) -> Section {
    Section { id, title: format!("section {}", id), position: position.to_string() }
}

fn record(id: i32, created_at: i64) -> NoteRecord {
    NoteRecord {
        id,
        text: format!("note {}", id),
        created_at: at(created_at),
        modified_at: at(created_at + 1),
        created_by: Some(Identity { email: Some("a@example.com".to_string()), name: None }),
        modified_by: Some(Identity { email: Some("m@example.com".to_string()), name: None }),
    }
}

fn note(id: i32, created_at: i64) -> Note {
    Note {
        id,
        text: format!("note {}", id),
        email: Some("a@example.com".to_string()),
        name: None,
        modified_at: at(created_at + 1),
        created_at: at(created_at),
        reactions: Vec::new(),
    }
}

fn reaction(id: i32, created_at: i64) -> Reaction {
    Reaction { id, emoji: "+1".to_string(), created_by_id: 1, created_at: at(created_at) }
}

fn to_note(note_id: i32, reaction: Reaction) -> Row<Reaction> {
    Row { parent_id: note_id, deleted_at: None, item: reaction }
}

fn event(id: i32, created_at: i64) -> TimelineEvent {
    TimelineEvent {
        id,
        action: "created".to_string(),
        created_at: at(created_at),
        created_by_id: Some(1),
        created_by_name: Some("a@example.com".to_string()),
    }
}

fn label(entry: &IngredientLike) -> String {
    match entry {
        IngredientLike::Ingredient(i) => format!("Ingredient@{}", i.position),
        IngredientLike::Section(s) => format!("Section@{}", s.position),
    }
}

fn mark(entry: &TimelineLike) -> String {
    match entry {
        TimelineLike::TimelineEvent(e) => format!("Event{}@{}", e.id, e.created_at.micros),
        TimelineLike::Note(n) => format!("Note{}@{}", n.id, n.created_at.micros),
    }
}

#[test]
fn ingredient_list_is_sorted_across_variants() {
    let merged = merge_ingredient_like(
        vec![ingredient(1, "2"), ingredient(2, "1.5")],
        vec![section(1, "1")],
    );
    let labels: Vec<String> = merged.iter().map(label).collect();
    assert_eq!(labels, vec!["Section@1", "Ingredient@1.5", "Ingredient@2"]);
}

#[test]
fn section_is_interleaved_between_ingredients() {
    let merged = merge_ingredient_like(
        vec![ingredient(1, "1"), ingredient(2, "2")],
        vec![section(1, "1.5")],
    );
    assert_eq!(
        merged,
        vec![
            IngredientLike::Ingredient(ingredient(1, "1")),
            IngredientLike::Section(section(1, "1.5")),
            IngredientLike::Ingredient(ingredient(2, "2")),
        ]
    );
}

#[test]
fn entries_at_one_position_keep_their_order() {
    let merged = merge_ingredient_like(
        vec![ingredient(1, "1"), ingredient(2, "1")],
        vec![section(3, "1"), section(4, "0")],
    );
    let labels: Vec<(String, i32)> = merged
        .iter()
        .map(|e| match e {
            IngredientLike::Ingredient(i) => ("i".to_string(), i.id),
            IngredientLike::Section(s) => ("s".to_string(), s.id),
        })
        .collect();
    assert_eq!(
        labels,
        vec![
            ("s".to_string(), 4),
            ("i".to_string(), 1),
            ("i".to_string(), 2),
            ("s".to_string(), 3)
        ]
    );
}

#[test]
fn ingredient_list_of_nothing_is_empty() {
    assert!(merge_ingredient_like(Vec::new(), Vec::new()).is_empty());
    assert_eq!(merge_ingredient_like(Vec::new(), vec![section(1, "a")]).len(), 1);
    assert_eq!(merge_ingredient_like(vec![ingredient(1, "a")], Vec::new()).len(), 1);
}

#[test]
fn note_without_reactions_has_an_empty_list() {
    let reactions = vec![to_note(8, reaction(1, 10))];
    assert_eq!(reactions_for(7, &reactions), Vec::<Reaction>::new());
    assert_eq!(reactions_for(7, &Vec::new()), Vec::<Reaction>::new());
    let built = attach_reactions(&record(7, 5), &reactions);
    assert_eq!(built.reactions, Vec::<Reaction>::new());
    assert_eq!(built, note(7, 5));
}

#[test]
fn deleted_reactions_are_not_grouped() {
    let mut gone = to_note(7, reaction(1, 30));
    gone.deleted_at = Some(at(31));
    let reactions = vec![gone, to_note(7, reaction(2, 20))];
    assert_eq!(reactions_for(7, &reactions), vec![reaction(2, 20)]);
}

#[test]
fn reactions_are_grouped_under_their_note_in_order() {
    let reactions = vec![
        to_note(7, reaction(1, 30)),
        to_note(8, reaction(2, 25)),
        to_note(7, reaction(3, 20)),
        to_note(7, reaction(4, 10)),
    ];
    assert_eq!(
        reactions_for(7, &reactions),
        vec![reaction(1, 30), reaction(3, 20), reaction(4, 10)]
    );
    let notes = group_reactions(&vec![record(8, 2), record(7, 1), record(9, 0)], &reactions);
    assert_eq!(notes.len(), 3);
    assert_eq!(notes[0].id, 8);
    assert_eq!(notes[0].reactions, vec![reaction(2, 25)]);
    assert_eq!(notes[1].reactions.len(), 3);
    assert_eq!(notes[2].reactions, Vec::<Reaction>::new());
}

#[test]
fn note_names_its_author_not_who_changed_it() {
    let built = attach_reactions(&record(7, 5), &Vec::new());
    assert_eq!(built.email, Some("a@example.com".to_string()));
    assert_eq!(built.name, None);
    assert_eq!(built.created_at, at(5));
    assert_eq!(built.modified_at, at(6));
    let mut anonymous = record(7, 5);
    anonymous.created_by = None;
    let built = attach_reactions(&anonymous, &Vec::new());
    assert_eq!(built.email, None);
    assert_eq!(built.name, None);
}

#[test]
fn timeline_is_sorted_latest_first_across_variants() {
    let timeline = merge_timeline(vec![event(1, 7)], vec![note(1, 5), note(2, 3)]);
    let marks: Vec<String> = timeline.iter().map(mark).collect();
    assert_eq!(marks, vec!["Event1@7", "Note1@5", "Note2@3"]);
}

#[test]
fn timeline_interleaves_events_and_notes() {
    let timeline = merge_timeline(
        vec![event(1, 9), event(2, 6), event(3, 1)],
        vec![note(1, 8), note(2, 7), note(3, 2)],
    );
    let marks: Vec<String> = timeline.iter().map(mark).collect();
    assert_eq!(marks, vec!["Event1@9", "Note1@8", "Note2@7", "Event2@6", "Note3@2", "Event3@1"]);
}

#[test]
fn event_comes_in_front_of_a_note_created_at_once() {
    let timeline = merge_timeline(vec![event(9, 5)], vec![note(1, 5)]);
    let marks: Vec<String> = timeline.iter().map(mark).collect();
    assert_eq!(marks, vec!["Event9@5", "Note1@5"]);
    let timeline = merge_timeline(vec![event(1, 5), event(2, 5)], vec![note(1, 5), note(2, 5)]);
    let marks: Vec<String> = timeline.iter().map(mark).collect();
    assert_eq!(marks, vec!["Event1@5", "Event2@5", "Note1@5", "Note2@5"]);
}

#[test]
fn timeline_of_one_kind_is_that_kind() {
    assert!(merge_timeline(Vec::new(), Vec::new()).is_empty());
    let timeline = merge_timeline(Vec::new(), vec![note(1, 5), note(2, 3)]);
    assert_eq!(timeline, vec![TimelineLike::Note(note(1, 5)), TimelineLike::Note(note(2, 3))]);
    let timeline = merge_timeline(vec![event(1, 5), event(2, 3)], Vec::new());
    assert_eq!(
        timeline,
        vec![TimelineLike::TimelineEvent(event(1, 5)), TimelineLike::TimelineEvent(event(2, 3))]
    );
}

#[test]
fn timeline_rank_breaks_ties_by_variant_then_id() {
    let e1 = TimelineLike::TimelineEvent(event(1, 5));
    let e2 = TimelineLike::TimelineEvent(event(2, 5));
    let n1 = TimelineLike::Note(note(1, 5));
    let late = TimelineLike::Note(note(1, 6));
    assert!(e1.ranks_le(&e2));
    assert!(!e2.ranks_le(&e1));
    assert!(e2.ranks_le(&n1));
    assert!(!n1.ranks_le(&e2));
    assert!(late.ranks_le(&e1));
    assert!(!e1.ranks_le(&late));
    assert!(e1.ranks_le(&e1));
    assert_eq!(e1.created_at(), at(5));
    assert_eq!(n1.id(), 1);
    assert!(n1.is_note());
    assert!(!e1.is_note());
}

#[test]
fn replicas_are_equal_to_what_they_copy() {
    let mut with_reactions = note(1, 5);
    with_reactions.reactions = vec![reaction(1, 2), reaction(2, 1)];
    assert_eq!(with_reactions.replicate(), with_reactions);
    let entry = TimelineLike::Note(with_reactions);
    assert_eq!(entry.replicate(), entry);
    let entry = IngredientLike::Section(section(1, "a"));
    assert_eq!(entry.replicate(), entry);
    assert_eq!(entry.position(), "a");
    assert_eq!(record(3, 4).replicate(), record(3, 4));
    assert_eq!(event(3, 4).replicate(), event(3, 4));
}

#[test]
fn assemble_attaches_the_lists_to_the_recipe() {
    let recipe = RecipeRow {
        id: 42,
        name: "Soup".to_string(),
        author: Some("Ann".to_string()),
        source: None,
        time: "1h".to_string(),
        servings: "4".to_string(),
        tags: vec!["warm".to_string(), "cheap".to_string()],
        created_at: Some(at(1)),
        archived_at: Some(at(2)),
        deleted_at: None,
        owner: Owner::User(1),
    };
    let related = Related {
        ingredients: vec![ingredient(1, "1"), ingredient(2, "2")],
        sections: vec![section(1, "1.5")],
        steps: vec![Step { id: 1, position: "1".to_string(), text: "boil".to_string() }],
        notes: vec![record(1, 5)],
        reactions: vec![to_note(1, reaction(1, 7)), to_note(1, reaction(2, 6))],
        timeline_events: vec![event(1, 9)],
    };
    let document = assemble(&recipe, related);
    assert_eq!(document.id, 42);
    assert_eq!(document.name, "Soup");
    assert_eq!(document.author, Some("Ann".to_string()));
    assert_eq!(document.source, None);
    assert_eq!(document.time, "1h");
    assert_eq!(document.servings, "4");
    assert_eq!(document.tags, vec!["warm".to_string(), "cheap".to_string()]);
    assert_eq!(document.created_at, Some(at(1)));
    assert_eq!(document.archived_at, Some(at(2)));
    let labels: Vec<String> = document.ingredients.iter().map(label).collect();
    assert_eq!(labels, vec!["Ingredient@1", "Section@1.5", "Ingredient@2"]);
    assert_eq!(document.steps.len(), 1);
    let marks: Vec<String> = document.timeline.iter().map(mark).collect();
    assert_eq!(marks, vec!["Event1@9", "Note1@5"]);
    match &document.timeline[1] {
        TimelineLike::Note(n) => assert_eq!(n.reactions, vec![reaction(1, 7), reaction(2, 6)]),
        TimelineLike::TimelineEvent(_) => panic!("a note was expected"),
    }
}
