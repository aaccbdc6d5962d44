//! A browser-side task list that stays responsive while a slower remote store
//! is the authority: user intents are applied to the local replica at once,
//! the matching remote call is handed to the caller as an effect, and the
//! eventual outcome is reconciled back into the replica.

pub mod ident;
pub mod laws;
pub mod message;
pub mod model;
pub mod page;
pub mod registry;
pub mod remote;
pub mod stats;
pub mod store;
pub mod task;
pub mod text;
