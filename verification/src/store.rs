//! The rows of the store, as one snapshot holds them.
//!
//! Every row that belongs to a recipe or to a note can be marked as deleted
//! without being removed; reads leave such rows out.

use crate::model::{
    Ingredient, IngredientView, NoteRecord, NoteRecordView, Reaction, ReactionView, Section,
    SectionView, Step, StepView, TimelineEvent, TimelineEventView,
};
use crate::replicate::{copy_optional_text, copy_text, copy_texts, Replicate};
use crate::sorting::Ranked;
use crate::time::{copy_instant, Timestamp};
use vstd::prelude::*;

verus! {

/// A stored entity that belongs to one parent: a recipe, or (for a reaction)
/// a note.
#[derive(Clone, Debug, PartialEq, Eq)]
pub struct Row<T> {
    /// The id of the parent.
    pub parent_id: i32,
    /// When the row was marked as deleted, if it was.
    pub deleted_at: Option<Timestamp>,
    pub item: T,
}

/// The model of a `Row`.
pub struct RowView<V> {
    pub parent_id: i32,
    pub deleted_at: Option<int>,
    pub item: V,
}

impl<V> RowView<V> {
    /// The row is not marked as deleted.
    pub open spec fn is_live(self) -> bool {
        self.deleted_at is None
    }
}

impl<T: DeepView> DeepView for Row<T> {
    type V = RowView<T::V>;

    open spec fn deep_view(&self) -> RowView<T::V> {
        RowView {
            parent_id: self.parent_id,
            deleted_at: self.deleted_at.deep_view(),
            item: self.item.deep_view(),
        }
    }
}

impl<T: DeepView> View for Row<T> {
    type V = RowView<T::V>;

    open spec fn view(&self) -> RowView<T::V> {
        self.deep_view()
    }
}

impl<T: Replicate> Replicate for Row<T> {
    fn replicate(&self) -> (copy: Self) {
        Row {
            parent_id: self.parent_id,
            deleted_at: copy_instant(&self.deleted_at),
            item: self.item.replicate(),
        }
    }
}

/// Rows are ranked as the entities that they hold.
impl<T: Ranked> Ranked for Row<T> {
    open spec fn rank_le(a: RowView<T::V>, b: RowView<T::V>) -> bool {
        T::rank_le(a.item, b.item)
    }

    proof fn rank_le_total(a: RowView<T::V>, b: RowView<T::V>) {
        T::rank_le_total(a.item, b.item);
    }

    proof fn rank_le_transitive(a: RowView<T::V>, b: RowView<T::V>, c: RowView<T::V>) {
        T::rank_le_transitive(a.item, b.item, c.item);
    }

    fn ranks_le(&self, other: &Self) -> (le: bool) {
        self.item.ranks_le(&other.item)
    }
}

/// A session: a token bound to a user until an instant.
#[derive(Clone, Debug, PartialEq, Eq)]
pub struct SessionRow {
    pub session_key: String,
    pub user_id: i32,
    pub expire_at: Timestamp,
}

/// The model of a `SessionRow`.
pub struct SessionRowView {
    pub session_key: Seq<char>,
    pub user_id: i32,
    pub expire_at: int,
}

impl DeepView for SessionRow {
    type V = SessionRowView;

    open spec fn deep_view(&self) -> SessionRowView {
        SessionRowView {
            session_key: self.session_key@,
            user_id: self.user_id,
            expire_at: self.expire_at@,
        }
    }
}

impl View for SessionRow {
    type V = SessionRowView;

    open spec fn view(&self) -> SessionRowView {
        self.deep_view()
    }
}

/// A user's membership of a team.
#[derive(Clone, Copy, Debug, PartialEq, Eq, Structural)]
pub struct MembershipRow {
    pub user_id: i32,
    pub team_id: i32,
    pub is_active: bool,
}

impl DeepView for MembershipRow {
    type V = MembershipRow;

    open spec fn deep_view(&self) -> MembershipRow {
        *self
    }
}

impl View for MembershipRow {
    type V = MembershipRow;

    open spec fn view(&self) -> MembershipRow {
        *self
    }
}

/// Who a recipe belongs to.
#[derive(Clone, Copy, Debug, PartialEq, Eq, Structural)]
pub enum Owner {
    /// The user with this id.
    User(i32),
    /// The team with this id.
    Team(i32),
    /// The reference names neither a user nor a team.
    Unresolved,
}

/// The kind of owner that marks a reference to a user.
pub const USER_OWNER_KIND: i32 = 1;

/// The kind of owner that marks a reference to a team.
pub const TEAM_OWNER_KIND: i32 = 20;

impl Owner {
    /// The owner that a reference of kind `kind` to `object_id` names.
    pub open spec fn of_reference(object_id: i32, kind: i32) -> Owner {
        if kind == USER_OWNER_KIND {
            Owner::User(object_id)
        } else if kind == TEAM_OWNER_KIND {
            Owner::Team(object_id)
        } else {
            Owner::Unresolved
        }
    }

    /// The owner that a reference of kind `kind` names once it is held against
    /// the users and the teams: `user` is the id of the user that the
    /// reference points at, if there is such a user, and `team` that of the
    /// team. A reference to a user or a team that is not there names nobody.
    pub open spec fn of_joined(kind: i32, user: Option<i32>, team: Option<i32>) -> Owner {
        if kind == USER_OWNER_KIND && user is Some {
            Owner::User(user->0)
        } else if kind == TEAM_OWNER_KIND && team is Some {
            Owner::Team(team->0)
        } else {
            Owner::Unresolved
        }
    }

    /// Resolves a reference of kind `kind` that was held against the users
    /// and the teams.
    pub fn resolve(kind: i32, user: Option<i32>, team: Option<i32>) -> (owner: Owner)
        ensures
            owner == Owner::of_joined(kind, user, team),
    {
        if kind == USER_OWNER_KIND {
            match user {
                Some(user_id) => Owner::User(user_id),
                None => Owner::Unresolved,
            }
        } else if kind == TEAM_OWNER_KIND {
            match team {
                Some(team_id) => Owner::Team(team_id),
                None => Owner::Unresolved,
            }
        } else {
            Owner::Unresolved
        }
    }

    /// Resolves a reference of kind `kind` to `object_id`.
    pub fn from_reference(object_id: i32, kind: i32) -> (owner: Owner)
        ensures
            owner == Owner::of_reference(object_id, kind),
    {
        if kind == USER_OWNER_KIND {
            Owner::User(object_id)
        } else if kind == TEAM_OWNER_KIND {
            Owner::Team(object_id)
        } else {
            Owner::Unresolved
        }
    }
}

/// A recipe without what hangs on it.
#[derive(Clone, Debug, PartialEq, Eq)]
pub struct RecipeRow {
    pub id: i32,
    pub name: String,
    pub author: Option<String>,
    pub source: Option<String>,
    pub time: String,
    pub servings: String,
    pub tags: Vec<String>,
    pub created_at: Option<Timestamp>,
    /// Archived recipes are still recipes: archival is not deletion.
    pub archived_at: Option<Timestamp>,
    /// When the recipe was marked as deleted, if it was.
    pub deleted_at: Option<Timestamp>,
    pub owner: Owner,
}

/// The model of a `RecipeRow`.
pub struct RecipeRowView {
    pub id: i32,
    pub name: Seq<char>,
    pub author: Option<Seq<char>>,
    pub source: Option<Seq<char>>,
    pub time: Seq<char>,
    pub servings: Seq<char>,
    pub tags: Seq<Seq<char>>,
    pub created_at: Option<int>,
    pub archived_at: Option<int>,
    pub deleted_at: Option<int>,
    pub owner: Owner,
}

impl RecipeRowView {
    /// The recipe is not marked as deleted.
    pub open spec fn is_live(self) -> bool {
        self.deleted_at is None
    }
}

impl DeepView for RecipeRow {
    type V = RecipeRowView;

    open spec fn deep_view(&self) -> RecipeRowView {
        RecipeRowView {
            id: self.id,
            name: self.name@,
            author: self.author.deep_view(),
            source: self.source.deep_view(),
            time: self.time@,
            servings: self.servings@,
            tags: self.tags.deep_view(),
            created_at: self.created_at.deep_view(),
            archived_at: self.archived_at.deep_view(),
            deleted_at: self.deleted_at.deep_view(),
            owner: self.owner,
        }
    }
}

impl View for RecipeRow {
    type V = RecipeRowView;

    open spec fn view(&self) -> RecipeRowView {
        self.deep_view()
    }
}

impl Replicate for RecipeRow {
    fn replicate(&self) -> (copy: Self) {
        RecipeRow {
            id: self.id,
            name: copy_text(&self.name),
            author: copy_optional_text(&self.author),
            source: copy_optional_text(&self.source),
            time: copy_text(&self.time),
            servings: copy_text(&self.servings),
            tags: copy_texts(&self.tags),
            created_at: copy_instant(&self.created_at),
            archived_at: copy_instant(&self.archived_at),
            deleted_at: copy_instant(&self.deleted_at),
            owner: self.owner,
        }
    }
}

/// One snapshot of the store: every table as it stood at one instant.
#[derive(Clone, Debug, PartialEq, Eq)]
pub struct Store {
    pub sessions: Vec<SessionRow>,
    pub memberships: Vec<MembershipRow>,
    pub recipes: Vec<RecipeRow>,
    pub ingredients: Vec<Row<Ingredient>>,
    pub sections: Vec<Row<Section>>,
    pub steps: Vec<Row<Step>>,
    pub notes: Vec<Row<NoteRecord>>,
    /// The parent of a reaction is a note.
    pub reactions: Vec<Row<Reaction>>,
    pub timeline_events: Vec<Row<TimelineEvent>>,
}

/// The model of a `Store`.
pub struct StoreView {
    pub sessions: Seq<SessionRowView>,
    pub memberships: Seq<MembershipRow>,
    pub recipes: Seq<RecipeRowView>,
    pub ingredients: Seq<RowView<IngredientView>>,
    pub sections: Seq<RowView<SectionView>>,
    pub steps: Seq<RowView<StepView>>,
    pub notes: Seq<RowView<NoteRecordView>>,
    pub reactions: Seq<RowView<ReactionView>>,
    pub timeline_events: Seq<RowView<TimelineEventView>>,
}

impl DeepView for Store {
    type V = StoreView;

    open spec fn deep_view(&self) -> StoreView {
        StoreView {
            sessions: self.sessions.deep_view(),
            memberships: self.memberships.deep_view(),
            recipes: self.recipes.deep_view(),
            ingredients: self.ingredients.deep_view(),
            sections: self.sections.deep_view(),
            steps: self.steps.deep_view(),
            notes: self.notes.deep_view(),
            reactions: self.reactions.deep_view(),
            timeline_events: self.timeline_events.deep_view(),
        }
    }
}

impl View for Store {
    type V = StoreView;

    open spec fn view(&self) -> StoreView {
        self.deep_view()
    }
}

impl Store {
    /// A store without rows.
    pub fn new() -> (store: Store)
        ensures
            store@.sessions.len() == 0,
            store@.memberships.len() == 0,
            store@.recipes.len() == 0,
            store@.ingredients.len() == 0,
            store@.sections.len() == 0,
            store@.steps.len() == 0,
            store@.notes.len() == 0,
            store@.reactions.len() == 0,
            store@.timeline_events.len() == 0,
    {
        Store {
            sessions: Vec::new(),
            memberships: Vec::new(),
            recipes: Vec::new(),
            ingredients: Vec::new(),
            sections: Vec::new(),
            steps: Vec::new(),
            notes: Vec::new(),
            reactions: Vec::new(),
            timeline_events: Vec::new(),
        }
    }
}

} // verus!
