//! Reading the rows that hang on a recipe: one read per table, each leaving
//! out the rows that are marked as deleted, each in the order that the
//! document needs.

use crate::model::{
    Ingredient, IngredientView, NoteRecord, NoteRecordView, Reaction, ReactionView, Section,
    SectionView, Step, StepView, TimelineEvent, TimelineEventView,
};
use crate::replicate::Replicate;
use crate::seqs::{
    contains_id, lemma_filter_empty, lemma_filter_ignores_dropped, lemma_filter_kept,
    lemma_filter_take_step,
};
use crate::sorting::{
    lemma_rank_order_is_total_preorder, lemma_stable_sort_permutes, lemma_stable_sort_sorted,
    rank_order, sort_ranked, stable_sort, Ranked,
};
use crate::store::{Row, RowView, Store, StoreView};
use vstd::prelude::*;
use vstd::relations::sorted_by;

verus! {

/// The test that a read applies to each row: the row is not marked as
/// deleted, and its parent is one of `parents`.
pub open spec fn live_child_of<V>(parents: Seq<i32>) -> spec_fn(RowView<V>) -> bool {
    |row: RowView<V>| row.is_live() && parents.contains(row.parent_id)
}

/// The rows of `table` that pass `live_child_of`, in the order of the table.
pub open spec fn live_rows<V>(table: Seq<RowView<V>>, parents: Seq<i32>) -> Seq<RowView<V>> {
    table.filter(live_child_of(parents))
}

/// What the rows of `live_rows` hold.
pub open spec fn live_items<V>(table: Seq<RowView<V>>, parents: Seq<i32>) -> Seq<V> {
    live_rows(table, parents).map_values(|row: RowView<V>| row.item)
}

/// What a read of `table` returns: the live items of the parents, by rank.
pub open spec fn fetched_items<T: Ranked>(table: Seq<RowView<T::V>>, parents: Seq<i32>) -> Seq<
    T::V,
> {
    stable_sort(live_items(table, parents), rank_order::<T>())
}

/// What a read of `table` returns where the parent is needed later: the live
/// rows of the parents, by rank.
pub open spec fn fetched_rows<T: Ranked>(table: Seq<RowView<T::V>>, parents: Seq<i32>) -> Seq<
    RowView<T::V>,
> {
    stable_sort(live_rows(table, parents), rank_order::<Row<T>>())
}

/// Some row of `table` that is not marked as deleted and belongs to one of
/// `parents` holds `item`.
pub open spec fn is_held_by_live_row<V>(item: V, table: Seq<RowView<V>>, parents: Seq<i32>) -> bool {
    exists|j: int|
        0 <= j < table.len() && (#[trigger] table[j]).is_live() && parents.contains(
            table[j].parent_id,
        ) && table[j].item == item
}

/// A row that is marked as deleted changes no read, wherever it stands in the
/// table.
pub proof fn lemma_deleted_row_is_not_read<T: Ranked>(
    table: Seq<RowView<T::V>>,
    at: int,
    row: RowView<T::V>,
    parents: Seq<i32>,
)
    requires
        0 <= at <= table.len(),
        !row.is_live(),
    ensures
        live_rows(table.insert(at, row), parents) == live_rows(table, parents),
        fetched_items::<T>(table.insert(at, row), parents) == fetched_items::<T>(table, parents),
        fetched_rows::<T>(table.insert(at, row), parents) == fetched_rows::<T>(table, parents),
{
    lemma_filter_ignores_dropped(table, at, row, live_child_of(parents));
}

/// Every row that a read returns stands in the table, is not marked as
/// deleted, and belongs to one of the parents.
pub proof fn lemma_read_rows_are_live<V>(table: Seq<RowView<V>>, parents: Seq<i32>, k: int)
    requires
        0 <= k < live_rows(table, parents).len(),
    ensures
        live_rows(table, parents)[k].is_live(),
        parents.contains(live_rows(table, parents)[k].parent_id),
        table.contains(live_rows(table, parents)[k]),
{
    lemma_filter_kept(table, live_child_of(parents), k);
}

/// Every item that a read returns is held by a row of the table that is not
/// marked as deleted and belongs to one of the parents.
pub proof fn lemma_fetched_items_are_live<T: Ranked>(
    table: Seq<RowView<T::V>>,
    parents: Seq<i32>,
    k: int,
)
    requires
        0 <= k < fetched_items::<T>(table, parents).len(),
    ensures
        is_held_by_live_row(fetched_items::<T>(table, parents)[k], table, parents),
{
    let unsorted = live_items(table, parents);
    let item = fetched_items::<T>(table, parents)[k];
    lemma_stable_sort_permutes(unsorted, rank_order::<T>());
    vstd::seq_lib::to_multiset_contains(fetched_items::<T>(table, parents), item);
    vstd::seq_lib::to_multiset_contains(unsorted, item);
    let u = choose|u: int| 0 <= u < unsorted.len() && unsorted[u] == item;
    lemma_filter_kept(table, live_child_of(parents), u);
}

/// Every row that a ranked read returns stands in the table, is not marked as
/// deleted, and belongs to one of the parents.
pub proof fn lemma_fetched_rows_are_live<T: Ranked>(
    table: Seq<RowView<T::V>>,
    parents: Seq<i32>,
    k: int,
)
    requires
        0 <= k < fetched_rows::<T>(table, parents).len(),
    ensures
        fetched_rows::<T>(table, parents)[k].is_live(),
        parents.contains(fetched_rows::<T>(table, parents)[k].parent_id),
        table.contains(fetched_rows::<T>(table, parents)[k]),
{
    let unsorted = live_rows(table, parents);
    let row = fetched_rows::<T>(table, parents)[k];
    lemma_stable_sort_permutes(unsorted, rank_order::<Row<T>>());
    vstd::seq_lib::to_multiset_contains(fetched_rows::<T>(table, parents), row);
    vstd::seq_lib::to_multiset_contains(unsorted, row);
    let u = choose|u: int| 0 <= u < unsorted.len() && unsorted[u] == row;
    lemma_read_rows_are_live(table, parents, u);
}

/// Copies of the rows of `table` that are not marked as deleted and belong to
/// one of `parents`, in the order of the table.
pub fn read_live_rows<T: Replicate>(table: &Vec<Row<T>>, parents: &Vec<i32>) -> (rows: Vec<Row<T>>)
    ensures
        rows.deep_view() == live_rows(table.deep_view(), parents@),
{
    let ghost all = table.deep_view();
    let ghost keep = live_child_of::<T::V>(parents@);
    let mut rows: Vec<Row<T>> = Vec::new();
    proof {
        lemma_filter_empty(keep);
    }
    let mut i: usize = 0;
    while i < table.len()
        invariant
            i <= table.len(),
            all == table.deep_view(),
            keep == live_child_of::<T::V>(parents@),
            rows.deep_view() == all.take(i as int).filter(keep),
        decreases table.len() - i,
    {
        let row = &table[i];
        proof {
            lemma_filter_take_step(all, i as int, keep);
        }
        if row.deleted_at.is_none() && contains_id(parents, row.parent_id) {
            let copy = row.replicate();
            rows.push(copy);
        }
        i += 1;
    }
    proof {
        assert(all.take(i as int) =~= all);
    }
    rows
}

/// Copies of what the rows of `table` hold that are not marked as deleted and
/// belong to one of `parents`, in the order of the table.
pub fn read_live_items<T: Replicate>(table: &Vec<Row<T>>, parents: &Vec<i32>) -> (items: Vec<T>)
    ensures
        items.deep_view() == live_items(table.deep_view(), parents@),
{
    let ghost all = table.deep_view();
    let ghost keep = live_child_of::<T::V>(parents@);
    let mut items: Vec<T> = Vec::new();
    proof {
        lemma_filter_empty(keep);
    }
    let mut i: usize = 0;
    while i < table.len()
        invariant
            i <= table.len(),
            all == table.deep_view(),
            keep == live_child_of::<T::V>(parents@),
            items.deep_view() == live_items(all.take(i as int), parents@),
        decreases table.len() - i,
    {
        let row = &table[i];
        proof {
            lemma_filter_take_step(all, i as int, keep);
        }
        let ghost before = items.deep_view();
        if row.deleted_at.is_none() && contains_id(parents, row.parent_id) {
            let copy = row.item.replicate();
            items.push(copy);
            assert(items.deep_view() =~= before.push(row.item.deep_view()));
        }
        i += 1;
    }
    proof {
        assert(all.take(i as int) =~= all);
    }
    items
}

/// Reads the live items of `parents` from `table`, by rank; items ranked
/// alike come in the order of the table.
pub fn fetch_items<T: Ranked + Replicate>(table: &Vec<Row<T>>, parents: &Vec<i32>) -> (items: Vec<
    T,
>)
    ensures
        items.deep_view() == fetched_items::<T>(table.deep_view(), parents@),
        sorted_by(items.deep_view(), rank_order::<T>()),
        forall|k: int|
            0 <= k < items.len() ==> is_held_by_live_row(
                #[trigger] items.deep_view()[k],
                table.deep_view(),
                parents@,
            ),
{
    let unsorted = read_live_items(table, parents);
    let items = sort_ranked(unsorted);
    proof {
        let rows = table.deep_view();
        assert forall|k: int| 0 <= k < items.len() implies is_held_by_live_row(
            #[trigger] items.deep_view()[k],
            rows,
            parents@,
        ) by {
            lemma_fetched_items_are_live::<T>(rows, parents@, k);
        }
    }
    items
}

/// Reads the live rows of `parents` from `table`, by rank; rows ranked alike
/// come in the order of the table.
pub fn fetch_rows<T: Ranked + Replicate>(table: &Vec<Row<T>>, parents: &Vec<i32>) -> (rows: Vec<
    Row<T>,
>)
    ensures
        rows.deep_view() == fetched_rows::<T>(table.deep_view(), parents@),
        sorted_by(rows.deep_view(), rank_order::<Row<T>>()),
        forall|k: int|
            0 <= k < rows.len() ==> (#[trigger] rows.deep_view()[k]).is_live() && parents@.contains(
                rows.deep_view()[k].parent_id,
            ) && table.deep_view().contains(rows.deep_view()[k]),
{
    let unsorted = read_live_rows(table, parents);
    let rows = sort_ranked(unsorted);
    proof {
        assert forall|k: int| 0 <= k < rows.len() implies (#[trigger] rows.deep_view()[k]).is_live()
            && parents@.contains(rows.deep_view()[k].parent_id) && table.deep_view().contains(
            rows.deep_view()[k],
        ) by {
            lemma_fetched_rows_are_live::<T>(table.deep_view(), parents@, k);
        }
    }
    rows
}

/// The ingredients of the recipes, by position.
pub fn fetch_ingredients(store: &Store, recipe_ids: &Vec<i32>) -> (ingredients: Vec<Ingredient>)
    ensures
        ingredients.deep_view() == fetched_items::<Ingredient>(store@.ingredients, recipe_ids@),
        sorted_by(ingredients.deep_view(), rank_order::<Ingredient>()),
        forall|k: int|
            0 <= k < ingredients.len() ==> is_held_by_live_row(
                #[trigger] ingredients.deep_view()[k],
                store@.ingredients,
                recipe_ids@,
            ),
{
    fetch_items(&store.ingredients, recipe_ids)
}

/// The sections of the recipes, by position.
pub fn fetch_sections(store: &Store, recipe_ids: &Vec<i32>) -> (sections: Vec<Section>)
    ensures
        sections.deep_view() == fetched_items::<Section>(store@.sections, recipe_ids@),
        sorted_by(sections.deep_view(), rank_order::<Section>()),
        forall|k: int|
            0 <= k < sections.len() ==> is_held_by_live_row(
                #[trigger] sections.deep_view()[k],
                store@.sections,
                recipe_ids@,
            ),
{
    fetch_items(&store.sections, recipe_ids)
}

/// The steps of the recipes, by position.
pub fn fetch_steps(store: &Store, recipe_ids: &Vec<i32>) -> (steps: Vec<Step>)
    ensures
        steps.deep_view() == fetched_items::<Step>(store@.steps, recipe_ids@),
        sorted_by(steps.deep_view(), rank_order::<Step>()),
        forall|k: int|
            0 <= k < steps.len() ==> is_held_by_live_row(
                #[trigger] steps.deep_view()[k],
                store@.steps,
                recipe_ids@,
            ),
{
    fetch_items(&store.steps, recipe_ids)
}

/// The timeline events of the recipes, latest first.
pub fn fetch_timeline_events(store: &Store, recipe_ids: &Vec<i32>) -> (events: Vec<TimelineEvent>)
    ensures
        events.deep_view() == fetched_items::<TimelineEvent>(
            store@.timeline_events,
            recipe_ids@,
        ),
        sorted_by(events.deep_view(), rank_order::<TimelineEvent>()),
        forall|k: int|
            0 <= k < events.len() ==> is_held_by_live_row(
                #[trigger] events.deep_view()[k],
                store@.timeline_events,
                recipe_ids@,
            ),
{
    fetch_items(&store.timeline_events, recipe_ids)
}

/// The test that a read of notes adds: the note names who wrote it.
pub open spec fn is_authored() -> spec_fn(NoteRecordView) -> bool {
    |note: NoteRecordView| note.created_by is Some
}

/// What a read of notes returns: the live notes of the recipes that name
/// their author, latest first.
pub open spec fn fetched_notes(table: Seq<RowView<NoteRecordView>>, recipe_ids: Seq<i32>) -> Seq<
    NoteRecordView,
> {
    stable_sort(live_items(table, recipe_ids).filter(is_authored()), rank_order::<NoteRecord>())
}

/// Every note that a read returns names its author, and is held by a row that
/// is not marked as deleted and belongs to one of the recipes.
pub proof fn lemma_fetched_notes_are_live_and_authored(
    table: Seq<RowView<NoteRecordView>>,
    recipe_ids: Seq<i32>,
    k: int,
)
    requires
        0 <= k < fetched_notes(table, recipe_ids).len(),
    ensures
        fetched_notes(table, recipe_ids)[k].created_by is Some,
        is_held_by_live_row(fetched_notes(table, recipe_ids)[k], table, recipe_ids),
{
    let live = live_items(table, recipe_ids);
    let authored = live.filter(is_authored());
    let note = fetched_notes(table, recipe_ids)[k];
    lemma_stable_sort_permutes(authored, rank_order::<NoteRecord>());
    vstd::seq_lib::to_multiset_contains(fetched_notes(table, recipe_ids), note);
    vstd::seq_lib::to_multiset_contains(authored, note);
    let a = choose|a: int| 0 <= a < authored.len() && authored[a] == note;
    lemma_filter_kept(live, is_authored(), a);
    let u = choose|u: int| 0 <= u < live.len() && live[u] == authored[a];
    lemma_filter_kept(table, live_child_of(recipe_ids), u);
}

/// A note that does not name its author changes no read of notes.
pub proof fn lemma_unauthored_note_is_not_read(
    table: Seq<RowView<NoteRecordView>>,
    at: int,
    row: RowView<NoteRecordView>,
    recipe_ids: Seq<i32>,
)
    requires
        0 <= at <= table.len(),
        row.item.created_by is None,
    ensures
        fetched_notes(table.insert(at, row), recipe_ids) == fetched_notes(table, recipe_ids),
{
    let keep = live_child_of::<NoteRecordView>(recipe_ids);
    let front = table.take(at);
    let back = table.skip(at);
    assert(table =~= front + back);
    Seq::filter_distributes_over_add(front, back, keep);
    Seq::filter_distributes_over_add(front.push(row), back, keep);
    crate::seqs::lemma_filter_push(front, row, keep);
    let item = |r: RowView<NoteRecordView>| r.item;
    let kept_front = front.filter(keep).map_values(item);
    let kept_back = back.filter(keep).map_values(item);
    assert(live_items(table, recipe_ids) =~= kept_front + kept_back);
    Seq::filter_distributes_over_add(kept_front, kept_back, is_authored());
    if keep(row) {
        assert(live_items(table.insert(at, row), recipe_ids) =~= kept_front.push(row.item)
            + kept_back);
        Seq::filter_distributes_over_add(kept_front.push(row.item), kept_back, is_authored());
        crate::seqs::lemma_filter_push(kept_front, row.item, is_authored());
    }
}

/// Copies of the notes that name their author, in their order.
pub fn keep_authored(notes: &Vec<NoteRecord>) -> (authored: Vec<NoteRecord>)
    ensures
        authored.deep_view() == notes.deep_view().filter(is_authored()),
{
    let ghost all = notes.deep_view();
    let ghost keep = is_authored();
    let mut authored: Vec<NoteRecord> = Vec::new();
    proof {
        lemma_filter_empty(keep);
    }
    let mut i: usize = 0;
    while i < notes.len()
        invariant
            i <= notes.len(),
            all == notes.deep_view(),
            keep == is_authored(),
            authored.deep_view() == all.take(i as int).filter(keep),
        decreases notes.len() - i,
    {
        let note = &notes[i];
        proof {
            lemma_filter_take_step(all, i as int, keep);
        }
        if note.created_by.is_some() {
            let copy = note.replicate();
            authored.push(copy);
        }
        i += 1;
    }
    proof {
        assert(all.take(i as int) =~= all);
    }
    authored
}

/// The notes of the recipes that name their author, latest first.
pub fn fetch_notes(store: &Store, recipe_ids: &Vec<i32>) -> (notes: Vec<NoteRecord>)
    ensures
        notes.deep_view() == fetched_notes(store@.notes, recipe_ids@),
        sorted_by(notes.deep_view(), rank_order::<NoteRecord>()),
        forall|k: int|
            0 <= k < notes.len() ==> (#[trigger] notes.deep_view()[k]).created_by is Some
                && is_held_by_live_row(notes.deep_view()[k], store@.notes, recipe_ids@),
{
    let live = read_live_items(&store.notes, recipe_ids);
    let authored = keep_authored(&live);
    let notes = sort_ranked(authored);
    proof {
        assert forall|k: int| 0 <= k < notes.len() implies (#[trigger] notes.deep_view()[k]).created_by is Some
            && is_held_by_live_row(notes.deep_view()[k], store@.notes, recipe_ids@) by {
            lemma_fetched_notes_are_live_and_authored(store@.notes, recipe_ids@, k);
        }
    }
    notes
}

/// The test that picks the notes of the recipes, deleted or not.
pub open spec fn note_of(recipe_ids: Seq<i32>) -> spec_fn(RowView<NoteRecordView>) -> bool {
    |row: RowView<NoteRecordView>| recipe_ids.contains(row.parent_id)
}

/// The ids of the notes of the recipes, in the order of the table.
pub open spec fn note_ids_of(notes: Seq<RowView<NoteRecordView>>, recipe_ids: Seq<i32>) -> Seq<
    i32,
> {
    notes.filter(note_of(recipe_ids)).map_values(|row: RowView<NoteRecordView>| row.item.id)
}

/// What a read of reactions returns: the live reactions to the notes of the
/// recipes, latest first. A reaction names no recipe: it is reached through
/// its note.
pub open spec fn fetched_reactions(
    reactions: Seq<RowView<ReactionView>>,
    notes: Seq<RowView<NoteRecordView>>,
    recipe_ids: Seq<i32>,
) -> Seq<RowView<ReactionView>> {
    fetched_rows::<Reaction>(reactions, note_ids_of(notes, recipe_ids))
}

/// The ids of the notes of the recipes, in the order of the table.
pub fn note_ids(notes: &Vec<Row<NoteRecord>>, recipe_ids: &Vec<i32>) -> (ids: Vec<i32>)
    ensures
        ids@ == note_ids_of(notes.deep_view(), recipe_ids@),
{
    let ghost all = notes.deep_view();
    let ghost keep = note_of(recipe_ids@);
    let mut ids: Vec<i32> = Vec::new();
    proof {
        lemma_filter_empty(keep);
    }
    let mut i: usize = 0;
    while i < notes.len()
        invariant
            i <= notes.len(),
            all == notes.deep_view(),
            keep == note_of(recipe_ids@),
            ids@ == note_ids_of(all.take(i as int), recipe_ids@),
        decreases notes.len() - i,
    {
        let row = &notes[i];
        proof {
            lemma_filter_take_step(all, i as int, keep);
        }
        if contains_id(recipe_ids, row.parent_id) {
            ids.push(row.item.id);
        }
        i += 1;
    }
    proof {
        assert(all.take(i as int) =~= all);
    }
    ids
}

/// The reactions to the notes of the recipes, latest first, each with the id
/// of its note as parent.
pub fn fetch_reactions(store: &Store, recipe_ids: &Vec<i32>) -> (reactions: Vec<Row<Reaction>>)
    ensures
        reactions.deep_view() == fetched_reactions(store@.reactions, store@.notes, recipe_ids@),
        sorted_by(reactions.deep_view(), rank_order::<Row<Reaction>>()),
        forall|k: int|
            0 <= k < reactions.len() ==> (#[trigger] reactions.deep_view()[k]).is_live()
                && note_ids_of(store@.notes, recipe_ids@).contains(
                reactions.deep_view()[k].parent_id,
            ) && store@.reactions.contains(reactions.deep_view()[k]),
{
    let of_notes = note_ids(&store.notes, recipe_ids);
    fetch_rows(&store.reactions, &of_notes)
}

/// The rows that hang on a set of recipes, as six flat sequences.
#[derive(Clone, Debug, PartialEq, Eq)]
pub struct Related {
    pub ingredients: Vec<Ingredient>,
    pub sections: Vec<Section>,
    pub steps: Vec<Step>,
    pub notes: Vec<NoteRecord>,
    /// The parent of each row is the note that the reaction is to.
    pub reactions: Vec<Row<Reaction>>,
    pub timeline_events: Vec<TimelineEvent>,
}

/// The model of a `Related`.
pub struct RelatedView {
    pub ingredients: Seq<IngredientView>,
    pub sections: Seq<SectionView>,
    pub steps: Seq<StepView>,
    pub notes: Seq<NoteRecordView>,
    pub reactions: Seq<RowView<ReactionView>>,
    pub timeline_events: Seq<TimelineEventView>,
}

impl RelatedView {
    /// Each sequence is in the order that a read gives it: ingredients,
    /// sections and steps by position; notes, reactions and timeline events
    /// latest first.
    pub open spec fn is_ordered(self) -> bool {
        &&& sorted_by(self.ingredients, rank_order::<Ingredient>())
        &&& sorted_by(self.sections, rank_order::<Section>())
        &&& sorted_by(self.steps, rank_order::<Step>())
        &&& sorted_by(self.notes, rank_order::<NoteRecord>())
        &&& sorted_by(self.reactions, rank_order::<Row<Reaction>>())
        &&& sorted_by(self.timeline_events, rank_order::<TimelineEvent>())
    }
}

impl DeepView for Related {
    type V = RelatedView;

    open spec fn deep_view(&self) -> RelatedView {
        RelatedView {
            ingredients: self.ingredients.deep_view(),
            sections: self.sections.deep_view(),
            steps: self.steps.deep_view(),
            notes: self.notes.deep_view(),
            reactions: self.reactions.deep_view(),
            timeline_events: self.timeline_events.deep_view(),
        }
    }
}

impl View for Related {
    type V = RelatedView;

    open spec fn view(&self) -> RelatedView {
        self.deep_view()
    }
}

/// What the six reads return for `recipe_ids`.
pub open spec fn related_of(store: StoreView, recipe_ids: Seq<i32>) -> RelatedView {
    RelatedView {
        ingredients: fetched_items::<Ingredient>(store.ingredients, recipe_ids),
        sections: fetched_items::<Section>(store.sections, recipe_ids),
        steps: fetched_items::<Step>(store.steps, recipe_ids),
        notes: fetched_notes(store.notes, recipe_ids),
        reactions: fetched_reactions(store.reactions, store.notes, recipe_ids),
        timeline_events: fetched_items::<TimelineEvent>(store.timeline_events, recipe_ids),
    }
}

/// What the six reads return is ordered.
pub proof fn lemma_related_is_ordered(store: StoreView, recipe_ids: Seq<i32>)
    ensures
        related_of(store, recipe_ids).is_ordered(),
{
    lemma_rank_order_is_total_preorder::<Ingredient>();
    lemma_rank_order_is_total_preorder::<Section>();
    lemma_rank_order_is_total_preorder::<Step>();
    lemma_rank_order_is_total_preorder::<NoteRecord>();
    lemma_rank_order_is_total_preorder::<Row<Reaction>>();
    lemma_rank_order_is_total_preorder::<TimelineEvent>();
    lemma_stable_sort_sorted(
        live_items(store.ingredients, recipe_ids),
        rank_order::<Ingredient>(),
    );
    lemma_stable_sort_sorted(live_items(store.sections, recipe_ids), rank_order::<Section>());
    lemma_stable_sort_sorted(live_items(store.steps, recipe_ids), rank_order::<Step>());
    lemma_stable_sort_sorted(
        live_items(store.notes, recipe_ids).filter(is_authored()),
        rank_order::<NoteRecord>(),
    );
    lemma_stable_sort_sorted(
        live_rows(store.reactions, note_ids_of(store.notes, recipe_ids)),
        rank_order::<Row<Reaction>>(),
    );
    lemma_stable_sort_sorted(
        live_items(store.timeline_events, recipe_ids),
        rank_order::<TimelineEvent>(),
    );
}

/// An ingredient that is marked as deleted is not fetched.
pub proof fn lemma_deleted_ingredient_is_not_fetched(
    store: StoreView,
    at: int,
    row: RowView<IngredientView>,
    recipe_ids: Seq<i32>,
)
    requires
        0 <= at <= store.ingredients.len(),
        !row.is_live(),
    ensures
        related_of(StoreView { ingredients: store.ingredients.insert(at, row), ..store }, recipe_ids)
            == related_of(store, recipe_ids),
{
    lemma_deleted_row_is_not_read::<Ingredient>(store.ingredients, at, row, recipe_ids);
}

/// A section that is marked as deleted is not fetched.
pub proof fn lemma_deleted_section_is_not_fetched(
    store: StoreView,
    at: int,
    row: RowView<SectionView>,
    recipe_ids: Seq<i32>,
)
    requires
        0 <= at <= store.sections.len(),
        !row.is_live(),
    ensures
        related_of(StoreView { sections: store.sections.insert(at, row), ..store }, recipe_ids)
            == related_of(store, recipe_ids),
{
    lemma_deleted_row_is_not_read::<Section>(store.sections, at, row, recipe_ids);
}

/// A step that is marked as deleted is not fetched.
pub proof fn lemma_deleted_step_is_not_fetched(
    store: StoreView,
    at: int,
    row: RowView<StepView>,
    recipe_ids: Seq<i32>,
)
    requires
        0 <= at <= store.steps.len(),
        !row.is_live(),
    ensures
        related_of(StoreView { steps: store.steps.insert(at, row), ..store }, recipe_ids)
            == related_of(store, recipe_ids),
{
    lemma_deleted_row_is_not_read::<Step>(store.steps, at, row, recipe_ids);
}

/// A note that is marked as deleted is not among the notes that are fetched.
/// (Reactions are reached through every note of the recipe, so the reactions
/// to such a note are still read; they hang on no note of the document.)
pub proof fn lemma_deleted_note_is_not_fetched(
    store: StoreView,
    at: int,
    row: RowView<NoteRecordView>,
    recipe_ids: Seq<i32>,
)
    requires
        0 <= at <= store.notes.len(),
        !row.is_live(),
    ensures
        related_of(StoreView { notes: store.notes.insert(at, row), ..store }, recipe_ids).notes
            == related_of(store, recipe_ids).notes,
{
    lemma_deleted_row_is_not_read::<NoteRecord>(store.notes, at, row, recipe_ids);
}

/// A reaction that is marked as deleted is not fetched.
pub proof fn lemma_deleted_reaction_is_not_fetched(
    store: StoreView,
    at: int,
    row: RowView<ReactionView>,
    recipe_ids: Seq<i32>,
)
    requires
        0 <= at <= store.reactions.len(),
        !row.is_live(),
    ensures
        related_of(StoreView { reactions: store.reactions.insert(at, row), ..store }, recipe_ids)
            == related_of(store, recipe_ids),
{
    lemma_deleted_row_is_not_read::<Reaction>(
        store.reactions,
        at,
        row,
        note_ids_of(store.notes, recipe_ids),
    );
}

/// A timeline event that is marked as deleted is not fetched.
pub proof fn lemma_deleted_timeline_event_is_not_fetched(
    store: StoreView,
    at: int,
    row: RowView<TimelineEventView>,
    recipe_ids: Seq<i32>,
)
    requires
        0 <= at <= store.timeline_events.len(),
        !row.is_live(),
    ensures
        related_of(
            StoreView { timeline_events: store.timeline_events.insert(at, row), ..store },
            recipe_ids,
        ) == related_of(store, recipe_ids),
{
    lemma_deleted_row_is_not_read::<TimelineEvent>(store.timeline_events, at, row, recipe_ids);
}

/// Reads the rows that hang on the recipes `recipe_ids`: one read per table,
/// all on the same ids, each leaving out what is marked as deleted.
pub fn fetch_related(store: &Store, recipe_ids: &Vec<i32>) -> (related: Related)
    ensures
        related@ == related_of(store@, recipe_ids@),
        related@.is_ordered(),
{
    proof {
        lemma_related_is_ordered(store@, recipe_ids@);
    }
    Related {
        ingredients: fetch_ingredients(store, recipe_ids),
        sections: fetch_sections(store, recipe_ids),
        steps: fetch_steps(store, recipe_ids),
        notes: fetch_notes(store, recipe_ids),
        reactions: fetch_reactions(store, recipe_ids),
        timeline_events: fetch_timeline_events(store, recipe_ids),
    }
}

} // verus!
