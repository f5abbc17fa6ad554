//! The logic of a chat bot for a messaging platform: routing of inbound
//! messages and button clicks, the per-chat stores of keyword filters,
//! notes and warnings, the moderation protocol, and the parsers of
//! duration tokens and button markup. Platform calls are left to the caller.
use vstd::prelude::*;

pub mod admin;
pub mod config;
pub mod dispatcher;
pub mod duration;
pub mod filters;
pub mod inline;
pub mod markup;
pub mod moderation;
pub mod notes;
pub mod store;
pub mod text;

pub use dispatcher::Stores;
pub use filters::{new_filter_store, FilterStore};
pub use moderation::{new_warn_store, WarnStore};
pub use notes::{new_note_store, NoteStore};

verus! {

} // verus!
