//! Joining the flat rows of one recipe into its document.
//!
//! Ingredients and sections become one list by position; reactions are
//! grouped under their notes; timeline events and notes become one timeline,
//! latest first.

use crate::fetch::{Related, RelatedView};
use crate::model::{
    Ingredient, IngredientLike, IngredientLikeView, IngredientView, Note, NoteRecord,
    NoteRecordView, NoteView, Reaction, ReactionView, Recipe, RecipeView, Section, SectionView,
    TimelineEvent, TimelineEventView, TimelineLike, TimelineLikeView,
};
use crate::replicate::{copy_optional_text, copy_text, copy_texts, Replicate};
use crate::seqs::{lemma_filter_empty, lemma_filter_kept, lemma_filter_take_step};
use crate::sorting::{
    insert_ranked, lemma_merge_agrees, lemma_merge_is_stable_sort, lemma_merge_permutes,
    lemma_merge_sorted,
    lemma_rank_order_is_total_preorder, lemma_sorted_filter, lemma_stable_sort_permutes,
    lemma_stable_sort_sorted, merge_in_order, rank_order, reversed, stable_sort,
};
use crate::store::{RecipeRow, RecipeRowView, Row, RowView};
use crate::text::lex_le;
use crate::time::copy_instant;
use vstd::prelude::*;
use vstd::relations::{sorted_by, strongly_connected, transitive};

verus! {

/// The ingredients as entries of the ingredient list.
pub open spec fn ingredient_entries(ingredients: Seq<IngredientView>) -> Seq<IngredientLikeView> {
    ingredients.map_values(|i: IngredientView| IngredientLikeView::Ingredient(i))
}

/// The sections as entries of the ingredient list.
pub open spec fn section_entries(sections: Seq<SectionView>) -> Seq<IngredientLikeView> {
    sections.map_values(|s: SectionView| IngredientLikeView::Section(s))
}

/// The ingredient list: ingredients and sections together, by position.
/// Entries at one position stand as they came, ingredients in front of
/// sections.
pub open spec fn merged_ingredient_like(
    ingredients: Seq<IngredientView>,
    sections: Seq<SectionView>,
) -> Seq<IngredientLikeView> {
    stable_sort(
        ingredient_entries(ingredients) + section_entries(sections),
        rank_order::<IngredientLike>(),
    )
}

/// The positions of the entries ascend in code-point order.
pub open spec fn ascends_by_position(entries: Seq<IngredientLikeView>) -> bool {
    forall|i: int, j: int|
        0 <= i < j < entries.len() ==> lex_le(
            (#[trigger] entries[i]).position(),
            (#[trigger] entries[j]).position(),
        )
}

/// The ingredient list ascends by position across both variants, and holds
/// the ingredients and the sections and nothing else.
pub proof fn lemma_merged_ingredient_like_is_sorted(
    ingredients: Seq<IngredientView>,
    sections: Seq<SectionView>,
)
    ensures
        sorted_by(merged_ingredient_like(ingredients, sections), rank_order::<IngredientLike>()),
        ascends_by_position(merged_ingredient_like(ingredients, sections)),
        merged_ingredient_like(ingredients, sections).to_multiset() == (ingredient_entries(
            ingredients,
        ) + section_entries(sections)).to_multiset(),
        merged_ingredient_like(ingredients, sections).len() == ingredients.len() + sections.len(),
{
    let entries = ingredient_entries(ingredients) + section_entries(sections);
    lemma_rank_order_is_total_preorder::<IngredientLike>();
    lemma_stable_sort_sorted(entries, rank_order::<IngredientLike>());
    lemma_stable_sort_permutes(entries, rank_order::<IngredientLike>());
    let merged = merged_ingredient_like(ingredients, sections);
    assert forall|i: int, j: int| 0 <= i < j < merged.len() implies lex_le(
        (#[trigger] merged[i]).position(),
        (#[trigger] merged[j]).position(),
    ) by {
        assert(rank_order::<IngredientLike>()(merged[i], merged[j]));
    }
}

/// Joins ingredients and sections into the ingredient list, by position.
pub fn merge_ingredient_like(ingredients: Vec<Ingredient>, sections: Vec<Section>) -> (merged: Vec<
    IngredientLike,
>)
    ensures
        merged.deep_view() == merged_ingredient_like(
            ingredients.deep_view(),
            sections.deep_view(),
        ),
        sorted_by(merged.deep_view(), rank_order::<IngredientLike>()),
        ascends_by_position(merged.deep_view()),
        merged.deep_view().to_multiset() == (ingredient_entries(ingredients.deep_view())
            + section_entries(sections.deep_view())).to_multiset(),
        merged.len() == ingredients.len() + sections.len(),
{
    let ghost all_ingredients = ingredients.deep_view();
    let ghost all_sections = sections.deep_view();
    let ghost front = ingredient_entries(all_ingredients);
    let ghost back = section_entries(all_sections);
    let ghost le = rank_order::<IngredientLike>();
    let mut rest_sections = sections;
    let mut rest_ingredients = ingredients;
    let mut merged: Vec<IngredientLike> = Vec::new();
    while rest_sections.len() > 0
        invariant
            rest_sections.len() <= all_sections.len(),
            rest_sections.deep_view() == all_sections.take(rest_sections.len() as int),
            back == section_entries(all_sections),
            le == rank_order::<IngredientLike>(),
            merged.deep_view() == stable_sort(back.skip(rest_sections.len() as int), le),
        decreases rest_sections.len(),
    {
        let ghost left = rest_sections.len() as int;
        assert(rest_sections.deep_view()[left - 1] == rest_sections@[left - 1].deep_view());
        let section = rest_sections.pop().unwrap();
        proof {
            assert(back.skip(left - 1).drop_first() =~= back.skip(left));
        }
        insert_ranked(&mut merged, IngredientLike::Section(section));
    }
    proof {
        assert(back.skip(0) =~= back);
    }
    while rest_ingredients.len() > 0
        invariant
            rest_ingredients.len() <= all_ingredients.len(),
            rest_ingredients.deep_view() == all_ingredients.take(rest_ingredients.len() as int),
            front == ingredient_entries(all_ingredients),
            le == rank_order::<IngredientLike>(),
            merged.deep_view() == stable_sort(
                front.skip(rest_ingredients.len() as int) + back,
                le,
            ),
        decreases rest_ingredients.len(),
    {
        let ghost left = rest_ingredients.len() as int;
        assert(rest_ingredients.deep_view()[left - 1] == rest_ingredients@[left - 1].deep_view());
        let ingredient = rest_ingredients.pop().unwrap();
        proof {
            let longer = front.skip(left - 1) + back;
            assert(longer.drop_first() =~= front.skip(left) + back);
        }
        insert_ranked(&mut merged, IngredientLike::Ingredient(ingredient));
    }
    proof {
        assert(front.skip(0) + back =~= front + back);
        lemma_merged_ingredient_like_is_sorted(all_ingredients, all_sections);
    }
    merged
}

/// The test that picks the reactions to one note: the row belongs to the
/// note and is not marked as deleted.
pub open spec fn reacts_to(note_id: i32) -> spec_fn(RowView<ReactionView>) -> bool {
    |row: RowView<ReactionView>| row.is_live() && row.parent_id == note_id
}

/// The reactions to the note `note_id`, in the order in which they came. The
/// result is a sequence for every id: it is empty for a note without
/// reactions.
pub open spec fn reactions_of(note_id: i32, reactions: Seq<RowView<ReactionView>>) -> Seq<
    ReactionView,
> {
    reactions.filter(reacts_to(note_id)).map_values(|row: RowView<ReactionView>| row.item)
}

/// A note to which no row reacts has the empty sequence of reactions.
pub proof fn lemma_note_without_reactions(note_id: i32, reactions: Seq<RowView<ReactionView>>)
    requires
        forall|i: int| 0 <= i < reactions.len() ==> (#[trigger] reactions[i]).parent_id != note_id,
    ensures
        reactions_of(note_id, reactions) == Seq::<ReactionView>::empty(),
{
    if reactions.filter(reacts_to(note_id)).len() > 0 {
        lemma_filter_kept(reactions, reacts_to(note_id), 0);
    }
}

/// Grouping keeps the order: reactions that came latest first stay so under
/// their note.
pub proof fn lemma_grouped_reactions_stay_sorted(
    note_id: i32,
    reactions: Seq<RowView<ReactionView>>,
)
    requires
        sorted_by(reactions, rank_order::<Row<Reaction>>()),
    ensures
        sorted_by(reactions_of(note_id, reactions), rank_order::<Reaction>()),
{
    let kept = reactions.filter(reacts_to(note_id));
    let group = reactions_of(note_id, reactions);
    lemma_sorted_filter(reactions, reacts_to(note_id), rank_order::<Row<Reaction>>());
    assert forall|i: int, j: int| 0 <= i < j < group.len() implies rank_order::<Reaction>()(
        group[i],
        group[j],
    ) by {
        assert(rank_order::<Row<Reaction>>()(kept[i], kept[j]));
    }
}

/// Copies of the reactions to the note `note_id`, in the order in which they
/// came; the empty list where there are none.
pub fn reactions_for(note_id: i32, reactions: &Vec<Row<Reaction>>) -> (group: Vec<Reaction>)
    ensures
        group.deep_view() == reactions_of(note_id, reactions.deep_view()),
        (forall|i: int|
            0 <= i < reactions.len() ==> (#[trigger] reactions.deep_view()[i]).parent_id
                != note_id) ==> group.len() == 0,
{
    let ghost all = reactions.deep_view();
    let ghost keep = reacts_to(note_id);
    let mut group: Vec<Reaction> = Vec::new();
    proof {
        lemma_filter_empty(keep);
    }
    let mut i: usize = 0;
    while i < reactions.len()
        invariant
            i <= reactions.len(),
            all == reactions.deep_view(),
            keep == reacts_to(note_id),
            group.deep_view() == reactions_of(note_id, all.take(i as int)),
        decreases reactions.len() - i,
    {
        let row = &reactions[i];
        proof {
            lemma_filter_take_step(all, i as int, keep);
        }
        let ghost before = group.deep_view();
        if row.deleted_at.is_none() && row.parent_id == note_id {
            let copy = row.item.replicate();
            group.push(copy);
            assert(group.deep_view() =~= before.push(row.item.deep_view()));
        }
        i += 1;
    }
    proof {
        assert(all.take(i as int) =~= all);
        if forall|i: int| 0 <= i < all.len() ==> (#[trigger] all[i]).parent_id != note_id {
            lemma_note_without_reactions(note_id, all);
        }
    }
    group
}

/// The note of the document that a stored note becomes: it names its author
/// and carries the reactions to it.
pub open spec fn note_of_record(record: NoteRecordView, reactions: Seq<RowView<ReactionView>>) -> NoteView {
    NoteView {
        id: record.id,
        text: record.text,
        email: match record.created_by {
            Some(author) => author.email,
            None => None,
        },
        name: match record.created_by {
            Some(author) => author.name,
            None => None,
        },
        modified_at: record.modified_at,
        created_at: record.created_at,
        reactions: reactions_of(record.id, reactions),
    }
}

/// The notes of the document, in the order of the stored notes.
pub open spec fn notes_of_records(
    records: Seq<NoteRecordView>,
    reactions: Seq<RowView<ReactionView>>,
) -> Seq<NoteView> {
    records.map_values(|record: NoteRecordView| note_of_record(record, reactions))
}

/// Builds the note of the document from a stored note and the reactions.
pub fn attach_reactions(record: &NoteRecord, reactions: &Vec<Row<Reaction>>) -> (note: Note)
    ensures
        note@ == note_of_record(record@, reactions.deep_view()),
{
    let email = match &record.created_by {
        Some(author) => copy_optional_text(&author.email),
        None => None,
    };
    let name = match &record.created_by {
        Some(author) => copy_optional_text(&author.name),
        None => None,
    };
    Note {
        id: record.id,
        text: copy_text(&record.text),
        email,
        name,
        modified_at: record.modified_at,
        created_at: record.created_at,
        reactions: reactions_for(record.id, reactions),
    }
}

/// Builds the notes of the document: every stored note with the reactions to
/// it, in the order of the stored notes.
pub fn group_reactions(records: &Vec<NoteRecord>, reactions: &Vec<Row<Reaction>>) -> (notes: Vec<
    Note,
>)
    ensures
        notes.deep_view() == notes_of_records(records.deep_view(), reactions.deep_view()),
        notes.len() == records.len(),
{
    let mut notes: Vec<Note> = Vec::new();
    let mut i: usize = 0;
    while i < records.len()
        invariant
            i <= records.len(),
            notes.len() == i,
            forall|j: int|
                0 <= j < i ==> (#[trigger] notes.deep_view()[j]) == note_of_record(
                    records.deep_view()[j],
                    reactions.deep_view(),
                ),
        decreases records.len() - i,
    {
        let ghost before = notes.deep_view();
        let note = attach_reactions(&records[i], reactions);
        notes.push(note);
        proof {
            assert(notes.deep_view() =~= before.push(note.deep_view()));
        }
        i += 1;
    }
    notes
}

/// The timeline events as entries of the timeline.
pub open spec fn event_entries(events: Seq<TimelineEventView>) -> Seq<TimelineLikeView> {
    events.map_values(|e: TimelineEventView| TimelineLikeView::TimelineEvent(e))
}

/// The notes as entries of the timeline.
pub open spec fn note_entries(notes: Seq<NoteView>) -> Seq<TimelineLikeView> {
    notes.map_values(|n: NoteView| TimelineLikeView::Note(n))
}

/// The timeline: the two-way merge of events and notes in the order of the
/// timeline. Where an event and a note were created at once, the event comes
/// first.
pub open spec fn merged_timeline(events: Seq<TimelineEventView>, notes: Seq<NoteView>) -> Seq<
    TimelineLikeView,
> {
    merge_in_order(event_entries(events), note_entries(notes), rank_order::<TimelineLike>())
}

/// No entry was created after an entry in front of it.
pub open spec fn is_latest_first(timeline: Seq<TimelineLikeView>) -> bool {
    forall|i: int, j: int|
        0 <= i < j < timeline.len() ==> (#[trigger] timeline[i]).created_at() >= (
        #[trigger] timeline[j]).created_at()
}

/// `a` was not created before `b`.
pub open spec fn not_older() -> spec_fn(TimelineLikeView, TimelineLikeView) -> bool {
    |a: TimelineLikeView, b: TimelineLikeView| a.created_at() >= b.created_at()
}



/// The timeline holds every event and every note once. Where both come
/// latest first, so does the timeline; where both come in the order of their
/// rank, the timeline is in the order of the timeline.
pub proof fn lemma_merged_timeline_is_sorted(events: Seq<TimelineEventView>, notes: Seq<NoteView>)
    ensures
        merged_timeline(events, notes).len() == events.len() + notes.len(),
        merged_timeline(events, notes).to_multiset() == event_entries(events).to_multiset().add(
            note_entries(notes).to_multiset(),
        ),
        is_latest_first(event_entries(events)) && is_latest_first(note_entries(notes))
            ==> is_latest_first(merged_timeline(events, notes)),
        sorted_by(events, rank_order::<TimelineEvent>()) && sorted_by(notes, rank_order::<Note>())
            ==> sorted_by(merged_timeline(events, notes), rank_order::<TimelineLike>())
            && is_latest_first(merged_timeline(events, notes)),
{
    let a = event_entries(events);
    let b = note_entries(notes);
    let le = rank_order::<TimelineLike>();
    let merged = merged_timeline(events, notes);
    lemma_merge_permutes(a, b, le);
    if is_latest_first(a) && is_latest_first(b) {
        let by_age = not_older();
        lemma_merge_agrees(a, b, le, by_age);
        lemma_merge_sorted(a, b, by_age);
        assert forall|i: int, j: int| 0 <= i < j < merged.len() implies (#[trigger] merged[i]).created_at()
            >= (#[trigger] merged[j]).created_at() by {
            assert(by_age(merged[i], merged[j]));
        }
    }
    if sorted_by(events, rank_order::<TimelineEvent>()) && sorted_by(notes, rank_order::<Note>()) {
        lemma_rank_order_is_total_preorder::<TimelineLike>();
        assert(sorted_by(a, le)) by {
            assert forall|i: int, j: int| 0 <= i < j < a.len() implies le(a[i], a[j]) by {
                assert(rank_order::<TimelineEvent>()(events[i], events[j]));
            }
        }
        assert(sorted_by(b, le)) by {
            assert forall|i: int, j: int| 0 <= i < j < b.len() implies le(b[i], b[j]) by {
                assert(rank_order::<Note>()(notes[i], notes[j]));
            }
        }
        lemma_merge_sorted(a, b, le);
        assert forall|i: int, j: int| 0 <= i < j < merged.len() implies (#[trigger] merged[i]).created_at()
            >= (#[trigger] merged[j]).created_at() by {
            assert(le(merged[i], merged[j]));
        }
    }
}

/// Where events and notes come in the order of their rank, as a read gives
/// them, the two-way merge is the sort of the events followed by the notes.
pub proof fn lemma_merged_timeline_is_the_sorted_union(
    events: Seq<TimelineEventView>,
    notes: Seq<NoteView>,
)
    requires
        sorted_by(events, rank_order::<TimelineEvent>()),
        sorted_by(notes, rank_order::<Note>()),
    ensures
        merged_timeline(events, notes) == stable_sort(
            event_entries(events) + note_entries(notes),
            rank_order::<TimelineLike>(),
        ),
{
    let a = event_entries(events);
    let b = note_entries(notes);
    let le = rank_order::<TimelineLike>();
    lemma_rank_order_is_total_preorder::<TimelineLike>();
    assert forall|i: int, j: int| 0 <= i < j < a.len() implies le(a[i], a[j]) by {
        assert(rank_order::<TimelineEvent>()(events[i], events[j]));
    }
    assert forall|i: int, j: int| 0 <= i < j < b.len() implies le(b[i], b[j]) by {
        assert(rank_order::<Note>()(notes[i], notes[j]));
    }
    lemma_merge_is_stable_sort(a, b, le);
}

/// Joins timeline events and notes into the timeline by a two-way merge.
///
/// Where both lists come latest first, as a read gives them, the timeline is
/// latest first across both; where both come in the order of their rank, it
/// is the sort of the events followed by the notes.
pub fn merge_timeline(events: Vec<TimelineEvent>, notes: Vec<Note>) -> (timeline: Vec<TimelineLike>)
    ensures
        timeline.deep_view() == merged_timeline(events.deep_view(), notes.deep_view()),
        timeline.len() == events.len() + notes.len(),
        is_latest_first(event_entries(events.deep_view())) && is_latest_first(
            note_entries(notes.deep_view()),
        ) ==> is_latest_first(timeline.deep_view()),
        sorted_by(events.deep_view(), rank_order::<TimelineEvent>()) && sorted_by(
            notes.deep_view(),
            rank_order::<Note>(),
        ) ==> sorted_by(timeline.deep_view(), rank_order::<TimelineLike>())
            && timeline.deep_view() == stable_sort(
            event_entries(events.deep_view()) + note_entries(notes.deep_view()),
            rank_order::<TimelineLike>(),
        ),
{
    let ghost all_events = events.deep_view();
    let ghost all_notes = notes.deep_view();
    let ghost a = event_entries(all_events);
    let ghost b = note_entries(all_notes);
    let ghost le = rank_order::<TimelineLike>();
    let mut rest_events = events;
    let mut rest_notes = notes;
    let mut turned: Vec<TimelineLike> = Vec::new();
    proof {
        assert(a.take(a.len() as int) =~= a);
        assert(b.take(b.len() as int) =~= b);
    }
    while rest_events.len() > 0 || rest_notes.len() > 0
        invariant
            rest_events.len() <= all_events.len(),
            rest_notes.len() <= all_notes.len(),
            rest_events.deep_view() == all_events.take(rest_events.len() as int),
            rest_notes.deep_view() == all_notes.take(rest_notes.len() as int),
            a == event_entries(all_events),
            b == note_entries(all_notes),
            le == rank_order::<TimelineLike>(),
            merge_in_order(a, b, le) == merge_in_order(
                a.take(rest_events.len() as int),
                b.take(rest_notes.len() as int),
                le,
            ) + turned.deep_view().reverse(),
        decreases rest_events.len() + rest_notes.len(),
    {
        let ghost n = rest_events.len() as int;
        let ghost m = rest_notes.len() as int;
        let ghost a_rest = a.take(n);
        let ghost b_rest = b.take(m);
        let note_is_last = if rest_events.len() == 0 {
            true
        } else if rest_notes.len() == 0 {
            false
        } else {
            let event = &rest_events[rest_events.len() - 1];
            let note = &rest_notes[rest_notes.len() - 1];
            proof {
                assert(rest_events.deep_view()[n - 1] == event.deep_view());
                assert(rest_notes.deep_view()[m - 1] == note.deep_view());
            }
            event.created_at.micros >= note.created_at.micros
        };
        if note_is_last {
            assert(rest_notes.deep_view()[m - 1] == rest_notes@[m - 1].deep_view());
            let note = rest_notes.pop().unwrap();
            proof {
                assert(b_rest.drop_last() =~= b.take(m - 1));
            }
            turned.push(TimelineLike::Note(note));
        } else {
            assert(rest_events.deep_view()[n - 1] == rest_events@[n - 1].deep_view());
            let event = rest_events.pop().unwrap();
            proof {
                assert(a_rest.drop_last() =~= a.take(n - 1));
            }
            turned.push(TimelineLike::TimelineEvent(event));
        }
    }
    proof {
        lemma_merged_timeline_is_sorted(all_events, all_notes);
        if sorted_by(all_events, rank_order::<TimelineEvent>()) && sorted_by(
            all_notes,
            rank_order::<Note>(),
        ) {
            lemma_merged_timeline_is_the_sorted_union(all_events, all_notes);
        }
    }
    reversed(turned)
}

/// The document of a recipe: the recipe row with its ingredient list, its
/// steps as they were read, and its timeline.
pub open spec fn assembled(recipe: RecipeRowView, related: RelatedView) -> RecipeView {
    RecipeView {
        id: recipe.id,
        name: recipe.name,
        author: recipe.author,
        source: recipe.source,
        time: recipe.time,
        servings: recipe.servings,
        tags: recipe.tags,
        archived_at: recipe.archived_at,
        created_at: recipe.created_at,
        ingredients: merged_ingredient_like(related.ingredients, related.sections),
        steps: related.steps,
        timeline: merged_timeline(
            related.timeline_events,
            notes_of_records(related.notes, related.reactions),
        ),
    }
}

/// Notes keep their rank when reactions are attached to them.
pub proof fn lemma_notes_of_records_stay_sorted(
    records: Seq<NoteRecordView>,
    reactions: Seq<RowView<ReactionView>>,
)
    requires
        sorted_by(records, rank_order::<NoteRecord>()),
    ensures
        sorted_by(notes_of_records(records, reactions), rank_order::<Note>()),
{
    let notes = notes_of_records(records, reactions);
    assert forall|i: int, j: int| 0 <= i < j < notes.len() implies rank_order::<Note>()(
        notes[i],
        notes[j],
    ) by {
        assert(rank_order::<NoteRecord>()(records[i], records[j]));
    }
}

/// The document of ordered rows is ordered: the ingredient list by position
/// across ingredients and sections, the steps by position, the timeline
/// latest first across events and notes, and the reactions of each note
/// latest first.
pub proof fn lemma_assembled_is_ordered(recipe: RecipeRowView, related: RelatedView)
    requires
        related.is_ordered(),
    ensures
        ascends_by_position(assembled(recipe, related).ingredients),
        sorted_by(assembled(recipe, related).steps, rank_order::<crate::model::Step>()),
        sorted_by(assembled(recipe, related).timeline, rank_order::<TimelineLike>()),
        is_latest_first(assembled(recipe, related).timeline),
{
    lemma_merged_ingredient_like_is_sorted(related.ingredients, related.sections);
    lemma_notes_of_records_stay_sorted(related.notes, related.reactions);
    lemma_merged_timeline_is_sorted(
        related.timeline_events,
        notes_of_records(related.notes, related.reactions),
    );
}

/// Builds the document of `recipe` from the rows that were read for it.
pub fn assemble(recipe: &RecipeRow, related: Related) -> (document: Recipe)
    ensures
        document@ == assembled(recipe@, related@),
        ascends_by_position(document@.ingredients),
        related@.is_ordered() ==> sorted_by(document@.steps, rank_order::<crate::model::Step>())
            && sorted_by(document@.timeline, rank_order::<TimelineLike>()) && is_latest_first(
            document@.timeline,
        ),
{
    proof {
        lemma_merged_ingredient_like_is_sorted(related@.ingredients, related@.sections);
        if related@.is_ordered() {
            lemma_assembled_is_ordered(recipe@, related@);
        }
    }
    let Related { ingredients, sections, steps, notes, reactions, timeline_events } = related;
    let ingredients = merge_ingredient_like(ingredients, sections);
    let notes = group_reactions(&notes, &reactions);
    let timeline = merge_timeline(timeline_events, notes);
    Recipe {
        id: recipe.id,
        name: copy_text(&recipe.name),
        author: copy_optional_text(&recipe.author),
        source: copy_optional_text(&recipe.source),
        time: copy_text(&recipe.time),
        servings: copy_text(&recipe.servings),
        tags: copy_texts(&recipe.tags),
        archived_at: copy_instant(&recipe.archived_at),
        created_at: copy_instant(&recipe.created_at),
        ingredients,
        steps,
        timeline,
    }
}

} // verus!
