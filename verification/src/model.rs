//! The entities of a recipe document, each with its model.
//!
//! A model holds texts as sequences of characters and instants as integers.
//! Entities that carry a position are ranked by it in code-point order;
//! entities that carry an instant of creation are ranked latest first, and by
//! ascending id where two were created at once.

use crate::replicate::{copy_optional_text, copy_text, replicate_all, Replicate};
use crate::sorting::Ranked;
use crate::text::{lemma_lex_le_total, lemma_lex_le_transitive, lex_le, text_le};
use crate::time::Timestamp;
use vstd::prelude::*;

verus! {

/// Latest first; of two entities created at once, the smaller id first.
pub open spec fn recency_le(at_a: int, id_a: i32, at_b: int, id_b: i32) -> bool {
    at_a > at_b || (at_a == at_b && id_a <= id_b)
}

/// Decides `recency_le`.
pub(crate) fn is_recency_le(at_a: &Timestamp, id_a: i32, at_b: &Timestamp, id_b: i32) -> (le: bool)
    ensures
        le == recency_le(at_a@, id_a, at_b@, id_b),
{
    at_a.micros > at_b.micros || (at_a.micros == at_b.micros && id_a <= id_b)
}

/// One ingredient of a recipe.
#[derive(Clone, Debug, PartialEq, Eq)]
pub struct Ingredient {
    pub id: i32,
    pub position: String,
    pub quantity: String,
    pub name: String,
    pub description: String,
}

/// The model of an `Ingredient`.
pub struct IngredientView {
    pub id: i32,
    pub position: Seq<char>,
    pub quantity: Seq<char>,
    pub name: Seq<char>,
    pub description: Seq<char>,
}

impl DeepView for Ingredient {
    type V = IngredientView;

    open spec fn deep_view(&self) -> IngredientView {
        IngredientView {
            id: self.id,
            position: self.position@,
            quantity: self.quantity@,
            name: self.name@,
            description: self.description@,
        }
    }
}

impl View for Ingredient {
    type V = IngredientView;

    open spec fn view(&self) -> IngredientView {
        self.deep_view()
    }
}

impl Replicate for Ingredient {
    fn replicate(&self) -> (copy: Self) {
        Ingredient {
            id: self.id,
            position: copy_text(&self.position),
            quantity: copy_text(&self.quantity),
            name: copy_text(&self.name),
            description: copy_text(&self.description),
        }
    }
}

impl Ranked for Ingredient {
    open spec fn rank_le(a: IngredientView, b: IngredientView) -> bool {
        lex_le(a.position, b.position)
    }

    proof fn rank_le_total(a: IngredientView, b: IngredientView) {
        lemma_lex_le_total(a.position, b.position);
    }

    proof fn rank_le_transitive(a: IngredientView, b: IngredientView, c: IngredientView) {
        lemma_lex_le_transitive(a.position, b.position, c.position);
    }

    fn ranks_le(&self, other: &Self) -> (le: bool) {
        text_le(self.position.as_str(), other.position.as_str())
    }
}

/// A heading among the ingredients of a recipe.
#[derive(Clone, Debug, PartialEq, Eq)]
pub struct Section {
    pub id: i32,
    pub title: String,
    pub position: String,
}

/// The model of a `Section`.
pub struct SectionView {
    pub id: i32,
    pub title: Seq<char>,
    pub position: Seq<char>,
}

impl DeepView for Section {
    type V = SectionView;

    open spec fn deep_view(&self) -> SectionView {
        SectionView { id: self.id, title: self.title@, position: self.position@ }
    }
}

impl View for Section {
    type V = SectionView;

    open spec fn view(&self) -> SectionView {
        self.deep_view()
    }
}

impl Replicate for Section {
    fn replicate(&self) -> (copy: Self) {
        Section {
            id: self.id,
            title: copy_text(&self.title),
            position: copy_text(&self.position),
        }
    }
}

impl Ranked for Section {
    open spec fn rank_le(a: SectionView, b: SectionView) -> bool {
        lex_le(a.position, b.position)
    }

    proof fn rank_le_total(a: SectionView, b: SectionView) {
        lemma_lex_le_total(a.position, b.position);
    }

    proof fn rank_le_transitive(a: SectionView, b: SectionView, c: SectionView) {
        lemma_lex_le_transitive(a.position, b.position, c.position);
    }

    fn ranks_le(&self, other: &Self) -> (le: bool) {
        text_le(self.position.as_str(), other.position.as_str())
    }
}

/// An entry of the ingredient list: an ingredient or a heading.
#[derive(Clone, Debug, PartialEq, Eq)]
pub enum IngredientLike {
    Ingredient(Ingredient),
    Section(Section),
}

/// The model of an `IngredientLike`.
pub enum IngredientLikeView {
    Ingredient(IngredientView),
    Section(SectionView),
}

impl IngredientLikeView {
    /// The position token of the entry, whichever variant it is.
    pub open spec fn position(self) -> Seq<char> {
        match self {
            IngredientLikeView::Ingredient(i) => i.position,
            IngredientLikeView::Section(s) => s.position,
        }
    }
}

impl DeepView for IngredientLike {
    type V = IngredientLikeView;

    open spec fn deep_view(&self) -> IngredientLikeView {
        match self {
            IngredientLike::Ingredient(i) => IngredientLikeView::Ingredient(i.deep_view()),
            IngredientLike::Section(s) => IngredientLikeView::Section(s.deep_view()),
        }
    }
}

impl View for IngredientLike {
    type V = IngredientLikeView;

    open spec fn view(&self) -> IngredientLikeView {
        self.deep_view()
    }
}

impl IngredientLike {
    /// The position token of the entry, whichever variant it is.
    pub fn position(&self) -> (position: &String)
        ensures
            position@ == self@.position(),
    {
        match self {
            IngredientLike::Ingredient(i) => &i.position,
            IngredientLike::Section(s) => &s.position,
        }
    }
}

impl Replicate for IngredientLike {
    fn replicate(&self) -> (copy: Self) {
        match self {
            IngredientLike::Ingredient(i) => IngredientLike::Ingredient(i.replicate()),
            IngredientLike::Section(s) => IngredientLike::Section(s.replicate()),
        }
    }
}

impl Ranked for IngredientLike {
    open spec fn rank_le(a: IngredientLikeView, b: IngredientLikeView) -> bool {
        lex_le(a.position(), b.position())
    }

    proof fn rank_le_total(a: IngredientLikeView, b: IngredientLikeView) {
        lemma_lex_le_total(a.position(), b.position());
    }

    proof fn rank_le_transitive(
        a: IngredientLikeView,
        b: IngredientLikeView,
        c: IngredientLikeView,
    ) {
        lemma_lex_le_transitive(a.position(), b.position(), c.position());
    }

    fn ranks_le(&self, other: &Self) -> (le: bool) {
        text_le(self.position().as_str(), other.position().as_str())
    }
}

/// One step of the method of a recipe.
#[derive(Clone, Debug, PartialEq, Eq)]
pub struct Step {
    pub id: i32,
    pub position: String,
    pub text: String,
}

/// The model of a `Step`.
pub struct StepView {
    pub id: i32,
    pub position: Seq<char>,
    pub text: Seq<char>,
}

impl DeepView for Step {
    type V = StepView;

    open spec fn deep_view(&self) -> StepView {
        StepView { id: self.id, position: self.position@, text: self.text@ }
    }
}

impl View for Step {
    type V = StepView;

    open spec fn view(&self) -> StepView {
        self.deep_view()
    }
}

impl Replicate for Step {
    fn replicate(&self) -> (copy: Self) {
        Step { id: self.id, position: copy_text(&self.position), text: copy_text(&self.text) }
    }
}

impl Ranked for Step {
    open spec fn rank_le(a: StepView, b: StepView) -> bool {
        lex_le(a.position, b.position)
    }

    proof fn rank_le_total(a: StepView, b: StepView) {
        lemma_lex_le_total(a.position, b.position);
    }

    proof fn rank_le_transitive(a: StepView, b: StepView, c: StepView) {
        lemma_lex_le_transitive(a.position, b.position, c.position);
    }

    fn ranks_le(&self, other: &Self) -> (le: bool) {
        text_le(self.position.as_str(), other.position.as_str())
    }
}

/// A reaction to a note.
#[derive(Clone, Debug, PartialEq, Eq)]
pub struct Reaction {
    pub id: i32,
    pub emoji: String,
    pub created_by_id: i32,
    pub created_at: Timestamp,
}

/// The model of a `Reaction`.
pub struct ReactionView {
    pub id: i32,
    pub emoji: Seq<char>,
    pub created_by_id: i32,
    pub created_at: int,
}

impl DeepView for Reaction {
    type V = ReactionView;

    open spec fn deep_view(&self) -> ReactionView {
        ReactionView {
            id: self.id,
            emoji: self.emoji@,
            created_by_id: self.created_by_id,
            created_at: self.created_at@,
        }
    }
}

impl View for Reaction {
    type V = ReactionView;

    open spec fn view(&self) -> ReactionView {
        self.deep_view()
    }
}

impl Replicate for Reaction {
    fn replicate(&self) -> (copy: Self) {
        Reaction {
            id: self.id,
            emoji: copy_text(&self.emoji),
            created_by_id: self.created_by_id,
            created_at: self.created_at,
        }
    }
}

impl Ranked for Reaction {
    open spec fn rank_le(a: ReactionView, b: ReactionView) -> bool {
        recency_le(a.created_at, a.id, b.created_at, b.id)
    }

    proof fn rank_le_total(a: ReactionView, b: ReactionView) {
    }

    proof fn rank_le_transitive(a: ReactionView, b: ReactionView, c: ReactionView) {
    }

    fn ranks_le(&self, other: &Self) -> (le: bool) {
        is_recency_le(&self.created_at, self.id, &other.created_at, other.id)
    }
}

/// Who wrote or changed something.
#[derive(Clone, Debug, PartialEq, Eq)]
pub struct Identity {
    pub email: Option<String>,
    pub name: Option<String>,
}

/// The model of an `Identity`.
pub struct IdentityView {
    pub email: Option<Seq<char>>,
    pub name: Option<Seq<char>>,
}

impl DeepView for Identity {
    type V = IdentityView;

    open spec fn deep_view(&self) -> IdentityView {
        IdentityView { email: self.email.deep_view(), name: self.name.deep_view() }
    }
}

impl View for Identity {
    type V = IdentityView;

    open spec fn view(&self) -> IdentityView {
        self.deep_view()
    }
}

impl Replicate for Identity {
    fn replicate(&self) -> (copy: Self) {
        Identity { email: copy_optional_text(&self.email), name: copy_optional_text(&self.name) }
    }
}

/// A note as the store holds it: without its reactions, and with whoever
/// wrote it and last changed it, where that is known.
#[derive(Clone, Debug, PartialEq, Eq)]
pub struct NoteRecord {
    pub id: i32,
    pub text: String,
    pub created_at: Timestamp,
    pub modified_at: Timestamp,
    pub created_by: Option<Identity>,
    pub modified_by: Option<Identity>,
}

/// The model of a `NoteRecord`.
pub struct NoteRecordView {
    pub id: i32,
    pub text: Seq<char>,
    pub created_at: int,
    pub modified_at: int,
    pub created_by: Option<IdentityView>,
    pub modified_by: Option<IdentityView>,
}

impl DeepView for NoteRecord {
    type V = NoteRecordView;

    open spec fn deep_view(&self) -> NoteRecordView {
        NoteRecordView {
            id: self.id,
            text: self.text@,
            created_at: self.created_at@,
            modified_at: self.modified_at@,
            created_by: self.created_by.deep_view(),
            modified_by: self.modified_by.deep_view(),
        }
    }
}

impl View for NoteRecord {
    type V = NoteRecordView;

    open spec fn view(&self) -> NoteRecordView {
        self.deep_view()
    }
}

/// A copy of an optional identity.
pub(crate) fn copy_identity(who: &Option<Identity>) -> (copy: Option<Identity>)
    ensures
        copy.deep_view() == who.deep_view(),
{
    match who {
        Some(identity) => Some(identity.replicate()),
        None => None,
    }
}

impl Replicate for NoteRecord {
    fn replicate(&self) -> (copy: Self) {
        NoteRecord {
            id: self.id,
            text: copy_text(&self.text),
            created_at: self.created_at,
            modified_at: self.modified_at,
            created_by: copy_identity(&self.created_by),
            modified_by: copy_identity(&self.modified_by),
        }
    }
}

impl Ranked for NoteRecord {
    open spec fn rank_le(a: NoteRecordView, b: NoteRecordView) -> bool {
        recency_le(a.created_at, a.id, b.created_at, b.id)
    }

    proof fn rank_le_total(a: NoteRecordView, b: NoteRecordView) {
    }

    proof fn rank_le_transitive(a: NoteRecordView, b: NoteRecordView, c: NoteRecordView) {
    }

    fn ranks_le(&self, other: &Self) -> (le: bool) {
        is_recency_le(&self.created_at, self.id, &other.created_at, other.id)
    }
}

/// A note of the document: what its author wrote, who the author is, and the
/// reactions to it.
#[derive(Clone, Debug, PartialEq, Eq)]
pub struct Note {
    pub id: i32,
    pub text: String,
    pub email: Option<String>,
    pub name: Option<String>,
    pub modified_at: Timestamp,
    pub created_at: Timestamp,
    pub reactions: Vec<Reaction>,
}

/// The model of a `Note`.
pub struct NoteView {
    pub id: i32,
    pub text: Seq<char>,
    pub email: Option<Seq<char>>,
    pub name: Option<Seq<char>>,
    pub modified_at: int,
    pub created_at: int,
    pub reactions: Seq<ReactionView>,
}

impl DeepView for Note {
    type V = NoteView;

    open spec fn deep_view(&self) -> NoteView {
        NoteView {
            id: self.id,
            text: self.text@,
            email: self.email.deep_view(),
            name: self.name.deep_view(),
            modified_at: self.modified_at@,
            created_at: self.created_at@,
            reactions: self.reactions.deep_view(),
        }
    }
}

impl View for Note {
    type V = NoteView;

    open spec fn view(&self) -> NoteView {
        self.deep_view()
    }
}

impl Replicate for Note {
    fn replicate(&self) -> (copy: Self) {
        Note {
            id: self.id,
            text: copy_text(&self.text),
            email: copy_optional_text(&self.email),
            name: copy_optional_text(&self.name),
            modified_at: self.modified_at,
            created_at: self.created_at,
            reactions: replicate_all(&self.reactions),
        }
    }
}

impl Ranked for Note {
    open spec fn rank_le(a: NoteView, b: NoteView) -> bool {
        recency_le(a.created_at, a.id, b.created_at, b.id)
    }

    proof fn rank_le_total(a: NoteView, b: NoteView) {
    }

    proof fn rank_le_transitive(a: NoteView, b: NoteView, c: NoteView) {
    }

    fn ranks_le(&self, other: &Self) -> (le: bool) {
        is_recency_le(&self.created_at, self.id, &other.created_at, other.id)
    }
}

/// Something that happened to a recipe.
#[derive(Clone, Debug, PartialEq, Eq)]
pub struct TimelineEvent {
    pub id: i32,
    pub action: String,
    pub created_at: Timestamp,
    pub created_by_id: Option<i32>,
    pub created_by_name: Option<String>,
}

/// The model of a `TimelineEvent`.
pub struct TimelineEventView {
    pub id: i32,
    pub action: Seq<char>,
    pub created_at: int,
    pub created_by_id: Option<i32>,
    pub created_by_name: Option<Seq<char>>,
}

impl DeepView for TimelineEvent {
    type V = TimelineEventView;

    open spec fn deep_view(&self) -> TimelineEventView {
        TimelineEventView {
            id: self.id,
            action: self.action@,
            created_at: self.created_at@,
            created_by_id: self.created_by_id,
            created_by_name: self.created_by_name.deep_view(),
        }
    }
}

impl View for TimelineEvent {
    type V = TimelineEventView;

    open spec fn view(&self) -> TimelineEventView {
        self.deep_view()
    }
}

impl Replicate for TimelineEvent {
    fn replicate(&self) -> (copy: Self) {
        TimelineEvent {
            id: self.id,
            action: copy_text(&self.action),
            created_at: self.created_at,
            created_by_id: self.created_by_id,
            created_by_name: copy_optional_text(&self.created_by_name),
        }
    }
}

impl Ranked for TimelineEvent {
    open spec fn rank_le(a: TimelineEventView, b: TimelineEventView) -> bool {
        recency_le(a.created_at, a.id, b.created_at, b.id)
    }

    proof fn rank_le_total(a: TimelineEventView, b: TimelineEventView) {
    }

    proof fn rank_le_transitive(
        a: TimelineEventView,
        b: TimelineEventView,
        c: TimelineEventView,
    ) {
    }

    fn ranks_le(&self, other: &Self) -> (le: bool) {
        is_recency_le(&self.created_at, self.id, &other.created_at, other.id)
    }
}

/// An entry of the timeline: an event or a note.
#[derive(Clone, Debug, PartialEq, Eq)]
pub enum TimelineLike {
    TimelineEvent(TimelineEvent),
    Note(Note),
}

/// The model of a `TimelineLike`.
pub enum TimelineLikeView {
    TimelineEvent(TimelineEventView),
    Note(NoteView),
}

impl TimelineLikeView {
    /// When the entry was created.
    pub open spec fn created_at(self) -> int {
        match self {
            TimelineLikeView::TimelineEvent(e) => e.created_at,
            TimelineLikeView::Note(n) => n.created_at,
        }
    }

    /// The id of the entry within its variant.
    pub open spec fn id(self) -> i32 {
        match self {
            TimelineLikeView::TimelineEvent(e) => e.id,
            TimelineLikeView::Note(n) => n.id,
        }
    }

    /// The order of the variants: events stand in front of notes.
    pub open spec fn variant_rank(self) -> int {
        match self {
            TimelineLikeView::TimelineEvent(_) => 0,
            TimelineLikeView::Note(_) => 1,
        }
    }
}

/// The order of the timeline: latest first; of entries created at once, events
/// in front of notes; within a variant, the smaller id first.
pub open spec fn timeline_le(a: TimelineLikeView, b: TimelineLikeView) -> bool {
    a.created_at() > b.created_at() || (a.created_at() == b.created_at() && (a.variant_rank()
        < b.variant_rank() || (a.variant_rank() == b.variant_rank() && a.id() <= b.id())))
}

impl DeepView for TimelineLike {
    type V = TimelineLikeView;

    open spec fn deep_view(&self) -> TimelineLikeView {
        match self {
            TimelineLike::TimelineEvent(e) => TimelineLikeView::TimelineEvent(e.deep_view()),
            TimelineLike::Note(n) => TimelineLikeView::Note(n.deep_view()),
        }
    }
}

impl View for TimelineLike {
    type V = TimelineLikeView;

    open spec fn view(&self) -> TimelineLikeView {
        self.deep_view()
    }
}

impl TimelineLike {
    /// When the entry was created.
    pub fn created_at(&self) -> (at: Timestamp)
        ensures
            at@ == self@.created_at(),
    {
        match self {
            TimelineLike::TimelineEvent(e) => e.created_at,
            TimelineLike::Note(n) => n.created_at,
        }
    }

    /// The id of the entry within its variant.
    pub fn id(&self) -> (id: i32)
        ensures
            id == self@.id(),
    {
        match self {
            TimelineLike::TimelineEvent(e) => e.id,
            TimelineLike::Note(n) => n.id,
        }
    }

    /// Whether the entry is a note.
    pub fn is_note(&self) -> (note: bool)
        ensures
            note == (self@ is Note),
    {
        match self {
            TimelineLike::TimelineEvent(_) => false,
            TimelineLike::Note(_) => true,
        }
    }
}

impl Replicate for TimelineLike {
    fn replicate(&self) -> (copy: Self) {
        match self {
            TimelineLike::TimelineEvent(e) => TimelineLike::TimelineEvent(e.replicate()),
            TimelineLike::Note(n) => TimelineLike::Note(n.replicate()),
        }
    }
}

impl Ranked for TimelineLike {
    open spec fn rank_le(a: TimelineLikeView, b: TimelineLikeView) -> bool {
        timeline_le(a, b)
    }

    proof fn rank_le_total(a: TimelineLikeView, b: TimelineLikeView) {
    }

    proof fn rank_le_transitive(a: TimelineLikeView, b: TimelineLikeView, c: TimelineLikeView) {
    }

    fn ranks_le(&self, other: &Self) -> (le: bool) {
        let at_a = self.created_at();
        let at_b = other.created_at();
        if at_a.micros != at_b.micros {
            at_a.micros > at_b.micros
        } else if self.is_note() != other.is_note() {
            other.is_note()
        } else {
            self.id() <= other.id()
        }
    }
}

/// The document: a recipe with its ingredient list, its steps and its
/// timeline.
#[derive(Clone, Debug, PartialEq, Eq)]
pub struct Recipe {
    pub id: i32,
    pub name: String,
    pub author: Option<String>,
    pub source: Option<String>,
    pub time: String,
    pub servings: String,
    pub tags: Vec<String>,
    pub archived_at: Option<Timestamp>,
    pub created_at: Option<Timestamp>,
    pub ingredients: Vec<IngredientLike>,
    pub steps: Vec<Step>,
    pub timeline: Vec<TimelineLike>,
}

/// The model of a `Recipe`.
pub struct RecipeView {
    pub id: i32,
    pub name: Seq<char>,
    pub author: Option<Seq<char>>,
    pub source: Option<Seq<char>>,
    pub time: Seq<char>,
    pub servings: Seq<char>,
    pub tags: Seq<Seq<char>>,
    pub archived_at: Option<int>,
    pub created_at: Option<int>,
    pub ingredients: Seq<IngredientLikeView>,
    pub steps: Seq<StepView>,
    pub timeline: Seq<TimelineLikeView>,
}

impl DeepView for Recipe {
    type V = RecipeView;

    open spec fn deep_view(&self) -> RecipeView {
        RecipeView {
            id: self.id,
            name: self.name@,
            author: self.author.deep_view(),
            source: self.source.deep_view(),
            time: self.time@,
            servings: self.servings@,
            tags: self.tags.deep_view(),
            archived_at: self.archived_at.deep_view(),
            created_at: self.created_at.deep_view(),
            ingredients: self.ingredients.deep_view(),
            steps: self.steps.deep_view(),
            timeline: self.timeline.deep_view(),
        }
    }
}

impl View for Recipe {
    type V = RecipeView;

    open spec fn view(&self) -> RecipeView {
        self.deep_view()
    }
}

} // verus!
