//! The command history: how much of it is kept and how it is searched.

use vstd::prelude::*;

verus! {

/// The number of history records that a query returns when the caller
/// names none.
pub const DEFAULT_HISTORY_PAGE: i32 = 100;

/// The number of records that a history query returns.
pub fn history_page(limit: Option<i32>) -> (page: i32)
    ensures
        page == match limit {
            Some(n) => n,
            None => DEFAULT_HISTORY_PAGE,
        },
{
    match limit {
        Some(n) => n,
        None => DEFAULT_HISTORY_PAGE,
    }
}

/// The pattern that finds `query` anywhere in a command.
pub open spec fn search_pattern_of(query: Seq<char>) -> Seq<char> {
    seq!['%'] + query + seq!['%']
}

/// The pattern that finds `query` anywhere in a command.
pub fn search_pattern(query: &str) -> (pattern: String)
    ensures
        pattern@ == search_pattern_of(query@),
{
    proof {
        reveal_strlit("%");
    }
    let mut pattern = String::from_str("%");
    pattern.append(query);
    pattern.append("%");
    assert(pattern@ =~= search_pattern_of(query@));
    pattern
}

} // verus!
