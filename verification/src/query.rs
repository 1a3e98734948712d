use vstd::prelude::*;

verus! {

/// What a memory search asks for: an optional full-text query, scopes
/// (each matching itself and its descendants), tags (any or all of them),
/// and a result limit.
pub struct SearchParams {
    pub query: Option<String>,
    pub scope: Option<Vec<String>>,
    pub tags: Option<Vec<String>>,
    pub match_all_tags: bool,
    pub limit: Option<usize>,
}

/// The number of results a search returns at most: the requested limit
/// (20 when none is given), capped at 100.
pub open spec fn limit_of(limit: Option<usize>) -> nat {
    let l = match limit {
        Some(l) => l as nat,
        None => 20,
    };
    if l < 100 { l } else { 100 }
}

/// `limit.unwrap_or(20).min(100)`.
pub fn effective_limit(limit: Option<usize>) -> (r: usize)
    ensures
        r == limit_of(limit),
        r <= 100,
{
    let l = match limit {
        Some(l) => l,
        None => 20,
    };
    if l < 100 { l } else { 100 }
}

} // verus!
