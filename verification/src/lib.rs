//! The state of a to-do list: an ordered collection of entries, a filter
//! that selects which of them are shown, and the operations that address an
//! entry by its position among the shown ones.
//!
//! Every operation is stated over a mathematical model of the state
//! ([`model::StateView`]) and proved to follow it.

pub mod entry;
pub mod error;
pub mod filter;
pub mod model;
pub mod msg;
pub mod state;
pub mod text;
pub mod theorems;

pub use entry::Entry;
pub use error::OutOfRange;
pub use filter::Filter;
pub use msg::{Effect, Msg};
pub use state::State;
