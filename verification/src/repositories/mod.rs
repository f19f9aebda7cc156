//! Records of the persisted collections, and the rules by which they are
//! read from and written to the store.

pub mod history;
pub mod settings;
pub mod snippets;
