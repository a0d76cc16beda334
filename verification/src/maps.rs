//! The listing in one order: where its pages are, and walks through them.

use vstd::prelude::*;

use crate::sort::SortBy;
use crate::stream::{Cursor, MapStream, PageStream};
use crate::url::{page_address, page_url};

verus! {

/// The map listing in one order.
#[derive(Debug, Clone, Copy)]
pub struct Maps {
    sort_by: SortBy,
}

impl Maps {
    pub closed spec fn spec_sort_by(&self) -> SortBy {
        self.sort_by
    }

    /// The listing in the order `sort_by`.
    pub fn new(sort_by: SortBy) -> (maps: Maps)
        ensures
            maps.sort_by() == sort_by,
    {
        Maps { sort_by }
    }

    /// The order of this listing.
    #[verifier::when_used_as_spec(spec_sort_by)]
    pub fn sort_by(&self) -> (sort_by: SortBy)
        ensures
            sort_by == self.spec_sort_by(),
    {
        self.sort_by
    }

    /// The address at which page `page` of this listing is served. Any
    /// number is taken: what lies beyond the last page is for the server
    /// to say.
    pub fn page(&self, page: u32) -> (url: String)
        ensures
            url@ == page_url(self.sort_by(), page),
    {
        page_address(self.sort_by, page)
    }

    /// A new walk through the pages of this listing. Every walk starts at
    /// page 0, whatever became of the walks before it.
    pub fn iter_pages(&self) -> (stream: PageStream)
        ensures
            stream.sort_by() == self.sort_by(),
            stream.cursor() == Cursor::Ready(0),
    {
        PageStream::new(self.sort_by)
    }

    /// A new walk through the maps of this listing, page after page and
    /// within each page in the order in which it was served. Every walk
    /// starts at page 0 with no map at hand.
    pub fn iter_all(&self) -> (stream: MapStream)
        ensures
            stream.sort_by() == self.sort_by(),
            stream.cursor() == Cursor::Ready(0),
            stream.pending() == Seq::<crate::models::BeatMap>::empty(),
    {
        MapStream::new(self.sort_by)
    }
}

} // verus!
