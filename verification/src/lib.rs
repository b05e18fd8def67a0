//! A to-do list kept in memory: the items, the order in which they are shown,
//! the records that persist them, and the pending text of the entry field.

pub mod clock;
pub mod ident;
pub mod item;
pub mod laws;
pub mod persist;
pub mod session;
pub mod store;
