//! Walking the pages of the listing, one answer at a time.
//!
//! A stream never talks to the server itself. It says which address to ask
//! for next, takes the answer that the caller got there, hands out what the
//! answer holds and moves on. A failed request ends a stream exactly as the
//! last page does: the stream has nothing more to hand out, and the failure
//! is not passed on.

use std::collections::VecDeque;
use vstd::prelude::*;

use crate::error::Error;
use crate::models::{BeatMap, BeatMaps};
use crate::sort::SortBy;
use crate::url::{page_address, page_url};

verus! {

/// Where a walk through the pages stands.
#[derive(Debug, Clone, Copy, PartialEq, Eq, Structural)]
pub enum Cursor {
    /// The page with this number is the next to be asked for.
    Ready(u32),
    /// The walk is over. Nothing leads out of this state.
    Exhausted,
}

impl Cursor {
    /// Where the walk stands once `response` has come in.
    ///
    /// A page leads on to the page that it names as its next, and ends the
    /// walk if it names none. A failure ends the walk.
    pub open spec fn after(self, response: Result<BeatMaps, Error>) -> Cursor {
        match (self, response) {
            (Cursor::Ready(_), Ok(page)) => match page.next_page {
                Some(next) => Cursor::Ready(next),
                None => Cursor::Exhausted,
            },
            _ => Cursor::Exhausted,
        }
    }

    /// What the walk hands out when `response` comes in: the maps of the
    /// page, if the walk was waiting for one and got it.
    pub open spec fn yields(self, response: Result<BeatMaps, Error>) -> Option<Vec<BeatMap>> {
        match (self, response) {
            (Cursor::Ready(_), Ok(page)) => Some(page.docs),
            _ => None,
        }
    }

    /// The address that the walk asks for next in the order `sort_by`, if it
    /// asks for any.
    pub open spec fn wants(self, sort_by: SortBy) -> Option<Seq<char>> {
        match self {
            Cursor::Ready(page) => Some(page_url(sort_by, page)),
            Cursor::Exhausted => None,
        }
    }
}

/// The maps that a pull handed out, none if it handed out no page.
pub open spec fn maps_of(page: Option<Vec<BeatMap>>) -> Seq<BeatMap> {
    match page {
        Some(docs) => docs@,
        None => Seq::empty(),
    }
}

/// A walk through the pages of the listing in one order, page by page.
#[derive(Debug)]
pub struct PageStream {
    sort_by: SortBy,
    cursor: Cursor,
}

impl PageStream {
    pub closed spec fn spec_sort_by(&self) -> SortBy {
        self.sort_by
    }

    pub closed spec fn spec_cursor(&self) -> Cursor {
        self.cursor
    }

    /// A walk that starts at page 0.
    pub fn new(sort_by: SortBy) -> (stream: PageStream)
        ensures
            stream.sort_by() == sort_by,
            stream.cursor() == Cursor::Ready(0),
    {
        PageStream { sort_by, cursor: Cursor::Ready(0) }
    }

    /// The order in which the pages are walked.
    #[verifier::when_used_as_spec(spec_sort_by)]
    pub fn sort_by(&self) -> (sort_by: SortBy)
        ensures
            sort_by == self.spec_sort_by(),
    {
        self.sort_by
    }

    /// Where the walk stands.
    #[verifier::when_used_as_spec(spec_cursor)]
    pub fn cursor(&self) -> (cursor: Cursor)
        ensures
            cursor == self.spec_cursor(),
    {
        self.cursor
    }

    /// The address to ask for next; `None` when the walk is over.
    pub fn request(&self) -> (url: Option<String>)
        ensures
            match self.cursor().wants(self.sort_by()) {
                Some(address) => url matches Some(text) && text@ == address,
                None => url is None,
            },
    {
        match self.cursor {
            Cursor::Ready(page) => Some(page_address(self.sort_by, page)),
            Cursor::Exhausted => None,
        }
    }

    /// Takes the answer to the last request and hands out the maps of the
    /// page that it holds.
    ///
    /// Returns `None` when the request failed, and whenever the walk was
    /// over already; the walk is over from then on.
    pub fn advance(&mut self, response: Result<BeatMaps, Error>) -> (page: Option<Vec<BeatMap>>)
        ensures
            final(self).sort_by() == old(self).sort_by(),
            final(self).cursor() == old(self).cursor().after(response),
            page == old(self).cursor().yields(response),
    {
        match self.cursor {
            Cursor::Exhausted => None,
            Cursor::Ready(_) => match response {
                Ok(page) => {
                    self.cursor = match page.next_page {
                        Some(next) => Cursor::Ready(next),
                        None => Cursor::Exhausted,
                    };
                    Some(page.docs)
                },
                Err(_) => {
                    self.cursor = Cursor::Exhausted;
                    None
                },
            },
        }
    }
}

/// What a walk through the maps asks of its caller.
#[derive(Debug, PartialEq)]
pub enum Step {
    /// The next map of the listing.
    Yield(BeatMap),
    /// The walk needs the page at this address: ask for it and supply the
    /// answer.
    Fetch(String),
    /// The walk is over.
    Done,
}

/// A walk through the maps of the listing in one order, map by map.
#[derive(Debug)]
pub struct MapStream {
    pages: PageStream,
    /// The maps that have come in and are not handed out yet.
    pending: VecDeque<BeatMap>,
}

impl MapStream {
    /// The order in which the pages are walked.
    pub closed spec fn sort_by(&self) -> SortBy {
        self.pages.sort_by()
    }

    /// Where the walk through the pages stands.
    pub closed spec fn cursor(&self) -> Cursor {
        self.pages.cursor()
    }

    /// The maps that have come in and are not handed out yet, the next one
    /// first.
    pub closed spec fn pending(&self) -> Seq<BeatMap> {
        self.pending@
    }

    /// A walk that starts at page 0, with no map at hand.
    pub fn new(sort_by: SortBy) -> (stream: MapStream)
        ensures
            stream.sort_by() == sort_by,
            stream.cursor() == Cursor::Ready(0),
            stream.pending() == Seq::<BeatMap>::empty(),
    {
        MapStream { pages: PageStream::new(sort_by), pending: VecDeque::new() }
    }

    /// Makes one step: hands out the next map at hand; where there is none,
    /// asks for the next page, or reports the end of the walk.
    pub fn poll(&mut self) -> (step: Step)
        ensures
            final(self).sort_by() == old(self).sort_by(),
            final(self).cursor() == old(self).cursor(),
            match step {
                Step::Yield(map) => {
                    &&& old(self).pending().len() > 0
                    &&& map == old(self).pending()[0]
                    &&& final(self).pending() == old(self).pending().drop_first()
                },
                Step::Fetch(url) => {
                    &&& old(self).pending().len() == 0
                    &&& final(self).pending() == old(self).pending()
                    &&& old(self).cursor().wants(old(self).sort_by()) == Some(url@)
                },
                Step::Done => {
                    &&& old(self).pending().len() == 0
                    &&& final(self).pending() == old(self).pending()
                    &&& old(self).cursor() == Cursor::Exhausted
                },
            },
    {
        match self.pending.pop_front() {
            Some(map) => {
                assert(self.pending@ =~= old(self).pending@.drop_first());
                Step::Yield(map)
            },
            None => match self.pages.request() {
                Some(url) => Step::Fetch(url),
                None => Step::Done,
            },
        }
    }

    /// Takes the answer to the last request: the maps of its page line up
    /// behind those at hand.
    ///
    /// A failure brings no map and ends the walk through the pages; the maps
    /// at hand are still handed out.
    pub fn supply(&mut self, response: Result<BeatMaps, Error>)
        ensures
            final(self).sort_by() == old(self).sort_by(),
            final(self).cursor() == old(self).cursor().after(response),
            final(self).pending() == old(self).pending() + maps_of(
                old(self).cursor().yields(response),
            ),
    {
        match self.pages.advance(response) {
            Some(docs) => {
                let ghost before = self.pending@;
                let ghost pages = self.pages;
                for map in maps: docs.into_iter()
                    invariant
                        maps.seq() == docs@,
                        self.pages == pages,
                        self.pending@ == before + docs@.take(maps.index()),
                {
                    self.pending.push_back(map);
                }
            },
            None => {
                assert(self.pending@ =~= old(self).pending@ + Seq::<BeatMap>::empty());
            },
        }
    }
}

} // verus!
