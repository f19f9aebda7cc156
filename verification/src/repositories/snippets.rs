//! Saved command snippets.

use vstd::prelude::*;

verus! {

/// A reusable command with its category.
#[derive(Debug)]
pub struct Snippet {
    pub id: Option<i64>,
    pub name: String,
    pub command: String,
    pub category: String,
    pub description: Option<String>,
    pub created_at: i64,
}

} // verus!
