//! The orderings of the map listing and their path segments.

use vstd::prelude::*;

verus! {

/// The orderings under which the listing can be requested.
#[derive(Debug, Clone, Copy, Ord, PartialOrd, Eq, PartialEq, Structural)]
pub enum SortBy {
    Downloads,
    Latest,
    Plays,
    Hot,
    Rating,
}

/// Whether `c` is one of the letters `a` to `z`.
pub open spec fn is_lowercase_letter(c: char) -> bool {
    'a' <= c && c <= 'z'
}

impl SortBy {
    /// The path segment that selects this ordering in a request address.
    pub open spec fn token(self) -> Seq<char> {
        match self {
            SortBy::Downloads => "downloads"@,
            SortBy::Latest => "latest"@,
            SortBy::Plays => "plays"@,
            SortBy::Hot => "hot"@,
            SortBy::Rating => "rating"@,
        }
    }

    /// The path segment that selects this ordering in a request address.
    #[inline(always)]
    pub fn path(&self) -> (segment: &'static str)
        ensures
            segment@ == self.token(),
    {
        match self {
            SortBy::Downloads => "downloads",
            SortBy::Latest => "latest",
            SortBy::Plays => "plays",
            SortBy::Hot => "hot",
            SortBy::Rating => "rating",
        }
    }
}

/// Every ordering's path segment is a non-empty word of lowercase letters.
pub proof fn lemma_token_is_lowercase_word(sort_by: SortBy)
    ensures
        sort_by.token().len() > 0,
        forall|i: int| 0 <= i < sort_by.token().len() ==> is_lowercase_letter(#[trigger] sort_by.token()[i]),
{
    reveal_strlit("downloads");
    reveal_strlit("latest");
    reveal_strlit("plays");
    reveal_strlit("hot");
    reveal_strlit("rating");
}

/// No two orderings share a path segment.
pub proof fn lemma_tokens_are_distinct(a: SortBy, b: SortBy)
    ensures
        a.token() == b.token() <==> a == b,
{
    reveal_strlit("downloads");
    reveal_strlit("latest");
    reveal_strlit("plays");
    reveal_strlit("hot");
    reveal_strlit("rating");
    if a != b && a.token() == b.token() {
        assert(a.token().len() == b.token().len());
        assert(a.token()[0] == b.token()[0]);
    }
}

} // verus!
