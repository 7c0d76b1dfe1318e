//! Assembles the detail view of one recipe from flat, soft-deletable rows.
//!
//! The crate validates a session, works out which recipes the user may see,
//! picks one, reads the rows that belong to it and joins them into one nested
//! document whose sequences are ordered. It works on a snapshot of the store
//! that the caller has read, and on one instant that the caller has taken
//! for the whole request.
//!
//! - [`store`] holds the rows of a snapshot, [`model`] the entities of the
//!   document; every type has a model, and the contracts speak of models.
//! - [`session`], [`scope`] and [`select`] lead from a token to a recipe.
//! - [`fetch`] reads the rows of a recipe, [`aggregate`] joins them.
//! - [`assembler`] runs the steps in their order.
//! - [`sorting`] and [`text`] hold the orders that the sequences follow.

pub mod aggregate;
pub mod assembler;
pub mod error;
pub mod fetch;
pub mod model;
pub mod replicate;
pub mod scope;
pub mod select;
pub mod seqs;
pub mod session;
pub mod sorting;
pub mod store;
pub mod text;
pub mod time;
