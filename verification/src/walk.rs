//! What a whole walk hands out, and the laws that hold of it.
//!
//! A server is taken to be a function from addresses to answers. Against such
//! a server the walks of [`crate::stream`] are played through here, answer by
//! answer, and what they hand out is written down as a sequence.

use vstd::prelude::*;

use crate::error::Error;
use crate::models::{BeatMap, BeatMaps};
use crate::sort::SortBy;
use crate::stream::{maps_of, Cursor};
use crate::url::page_url;

verus! {

/// The pages that a walk standing at `cursor` hands out in its next `pulls`
/// pulls, when each request is answered by `server`.
///
/// A pull asks for the address that the cursor wants, takes the answer, and
/// hands out the page if there is one.
pub open spec fn pages_walked(
    server: spec_fn(Seq<char>) -> Result<BeatMaps, Error>,
    sort_by: SortBy,
    cursor: Cursor,
    pulls: nat,
) -> Seq<Seq<BeatMap>>
    decreases pulls,
{
    if pulls == 0 {
        Seq::empty()
    } else {
        match cursor.wants(sort_by) {
            None => Seq::empty(),
            Some(address) => {
                let response = server(address);
                let rest = pages_walked(
                    server,
                    sort_by,
                    cursor.after(response),
                    (pulls - 1) as nat,
                );
                match cursor.yields(response) {
                    Some(docs) => seq![docs@] + rest,
                    None => rest,
                }
            },
        }
    }
}

/// The maps that a walk standing at `cursor` with `pending` at hand hands out
/// in its next `polls` steps, when each request is answered by `server` at
/// once.
///
/// A step hands out the first map at hand. With none at hand it asks for
/// the address that the cursor wants and takes the answer in.
pub open spec fn maps_walked(
    server: spec_fn(Seq<char>) -> Result<BeatMaps, Error>,
    sort_by: SortBy,
    cursor: Cursor,
    pending: Seq<BeatMap>,
    polls: nat,
) -> Seq<BeatMap>
    decreases polls,
{
    if polls == 0 {
        Seq::empty()
    } else if pending.len() > 0 {
        seq![pending[0]] + maps_walked(
            server,
            sort_by,
            cursor,
            pending.drop_first(),
            (polls - 1) as nat,
        )
    } else {
        match cursor.wants(sort_by) {
            None => Seq::empty(),
            Some(address) => {
                let response = server(address);
                maps_walked(
                    server,
                    sort_by,
                    cursor.after(response),
                    maps_of(cursor.yields(response)),
                    (polls - 1) as nat,
                )
            },
        }
    }
}

/// A walk that is over stays over: it asks for nothing, and whatever is
/// handed to it, it hands out nothing.
pub proof fn lemma_exhausted_is_terminal(sort_by: SortBy, response: Result<BeatMaps, Error>)
    ensures
        Cursor::Exhausted.wants(sort_by) is None,
        Cursor::Exhausted.after(response) == Cursor::Exhausted,
        Cursor::Exhausted.yields(response) is None,
{
}

/// A walk that is over hands out no page, however often it is pulled.
pub proof fn lemma_walk_over_hands_out_nothing(
    server: spec_fn(Seq<char>) -> Result<BeatMaps, Error>,
    sort_by: SortBy,
    pulls: nat,
)
    ensures
        pages_walked(server, sort_by, Cursor::Exhausted, pulls) == Seq::<Seq<BeatMap>>::empty(),
{
}

/// A failed request ends the walk: no page is handed out for it, and none
/// after it.
pub proof fn lemma_failure_ends_walk(
    server: spec_fn(Seq<char>) -> Result<BeatMaps, Error>,
    sort_by: SortBy,
    page: u32,
    pulls: nat,
)
    requires
        server(page_url(sort_by, page)) is Err,
    ensures
        pages_walked(server, sort_by, Cursor::Ready(page), pulls) == Seq::<Seq<BeatMap>>::empty(),
{
    if pulls > 0 {
        lemma_walk_over_hands_out_nothing(server, sort_by, (pulls - 1) as nat);
    }
}

/// A page that names no next page is handed out, and ends the walk.
pub proof fn lemma_last_page_ends_walk(
    server: spec_fn(Seq<char>) -> Result<BeatMaps, Error>,
    sort_by: SortBy,
    page: u32,
    pulls: nat,
)
    requires
        pulls > 0,
        server(page_url(sort_by, page)) is Ok,
        server(page_url(sort_by, page))->Ok_0.next_page is None,
    ensures
        pages_walked(server, sort_by, Cursor::Ready(page), pulls) == seq![
            server(page_url(sort_by, page))->Ok_0.docs@,
        ],
{
    lemma_walk_over_hands_out_nothing(server, sort_by, (pulls - 1) as nat);
}

/// A page that names a next page is handed out, and the walk goes on at the
/// page that it names.
pub proof fn lemma_page_leads_on(
    server: spec_fn(Seq<char>) -> Result<BeatMaps, Error>,
    sort_by: SortBy,
    page: u32,
    pulls: nat,
)
    requires
        pulls > 0,
        server(page_url(sort_by, page)) is Ok,
        server(page_url(sort_by, page))->Ok_0.next_page is Some,
    ensures
        pages_walked(server, sort_by, Cursor::Ready(page), pulls) == seq![
            server(page_url(sort_by, page))->Ok_0.docs@,
        ] + pages_walked(
            server,
            sort_by,
            Cursor::Ready(server(page_url(sort_by, page))->Ok_0.next_page->Some_0),
            (pulls - 1) as nat,
        ),
{
}

/// Whether `pages` are the pages that `server` serves to a walk standing at
/// `cursor`: each at the address that the walk asks for in its turn, up to
/// the last page of the listing or to the first request that fails.
pub open spec fn serves_in_turn(
    server: spec_fn(Seq<char>) -> Result<BeatMaps, Error>,
    sort_by: SortBy,
    cursor: Cursor,
    pages: Seq<BeatMaps>,
) -> bool
    decreases pages.len(),
{
    match cursor.wants(sort_by) {
        None => pages.len() == 0,
        Some(address) => match server(address) {
            Ok(page) => {
                &&& pages.len() > 0
                &&& pages[0] == page
                &&& serves_in_turn(server, sort_by, cursor.after(Ok(page)), pages.drop_first())
            },
            Err(_) => pages.len() == 0,
        },
    }
}

/// A walk hands out the pages that the server serves in turn, each with its
/// maps as they were served, and nothing else: it ends after the last page
/// of the listing, and it ends at the first request that fails, with the
/// pages before it handed out and no sign of the failure.
pub proof fn lemma_walk_hands_out_what_is_served(
    server: spec_fn(Seq<char>) -> Result<BeatMaps, Error>,
    sort_by: SortBy,
    cursor: Cursor,
    pages: Seq<BeatMaps>,
    pulls: nat,
)
    requires
        serves_in_turn(server, sort_by, cursor, pages),
        pulls >= pages.len(),
    ensures
        pages_walked(server, sort_by, cursor, pulls) == pages.map_values(
            |page: BeatMaps| page.docs@,
        ),
    decreases pages.len(),
{
    let docs_of = |page: BeatMaps| page.docs@;
    if pulls == 0 {
        assert(pages_walked(server, sort_by, cursor, pulls) =~= pages.map_values(docs_of));
    } else {
        match cursor.wants(sort_by) {
            None => {
                assert(pages_walked(server, sort_by, cursor, pulls) =~= pages.map_values(docs_of));
            },
            Some(address) => match server(address) {
                Ok(page) => {
                    let next = cursor.after(Ok(page));
                    lemma_walk_hands_out_what_is_served(
                        server,
                        sort_by,
                        next,
                        pages.drop_first(),
                        (pulls - 1) as nat,
                    );
                    assert(seq![page.docs@] + pages.drop_first().map_values(docs_of)
                        =~= pages.map_values(docs_of));
                },
                Err(_) => {
                    lemma_walk_over_hands_out_nothing(server, sort_by, (pulls - 1) as nat);
                    assert(pages_walked(server, sort_by, cursor, pulls) =~= pages.map_values(
                        docs_of,
                    ));
                },
            },
        }
    }
}

/// Each pull hands out one page at most.
pub proof fn lemma_one_page_per_pull(
    server: spec_fn(Seq<char>) -> Result<BeatMaps, Error>,
    sort_by: SortBy,
    cursor: Cursor,
    pulls: nat,
)
    ensures
        pages_walked(server, sort_by, cursor, pulls).len() <= pulls,
    decreases pulls,
{
    if pulls > 0 {
        match cursor.wants(sort_by) {
            None => {},
            Some(address) => {
                lemma_one_page_per_pull(
                    server,
                    sort_by,
                    cursor.after(server(address)),
                    (pulls - 1) as nat,
                );
            },
        }
    }
}

/// A walk only goes forward: what it has handed out stays as it is, and
/// further pulls add to its end.
pub proof fn lemma_walk_is_forward_only(
    server: spec_fn(Seq<char>) -> Result<BeatMaps, Error>,
    sort_by: SortBy,
    cursor: Cursor,
    pulls: nat,
    more: nat,
)
    ensures
        pages_walked(server, sort_by, cursor, pulls).is_prefix_of(
            pages_walked(server, sort_by, cursor, pulls + more),
        ),
    decreases pulls,
{
    if pulls > 0 {
        match cursor.wants(sort_by) {
            None => {},
            Some(address) => {
                let next = cursor.after(server(address));
                lemma_walk_is_forward_only(server, sort_by, next, (pulls - 1) as nat, more);
                assert((pulls + more - 1) as nat == (pulls - 1) as nat + more);
            },
        }
    }
}

/// The maps at hand are handed out first, in their order, one in each step.
pub proof fn lemma_pending_maps_come_first(
    server: spec_fn(Seq<char>) -> Result<BeatMaps, Error>,
    sort_by: SortBy,
    cursor: Cursor,
    pending: Seq<BeatMap>,
    polls: nat,
)
    ensures
        maps_walked(server, sort_by, cursor, pending, pending.len() + polls) == pending
            + maps_walked(server, sort_by, cursor, Seq::empty(), polls),
    decreases pending.len(),
{
    if pending.len() > 0 {
        lemma_pending_maps_come_first(server, sort_by, cursor, pending.drop_first(), polls);
        assert((pending.len() + polls - 1) as nat == pending.drop_first().len() + polls);
        assert(seq![pending[0]] + (pending.drop_first() + maps_walked(
            server,
            sort_by,
            cursor,
            Seq::empty(),
            polls,
        )) =~= pending + maps_walked(server, sort_by, cursor, Seq::empty(), polls));
    } else {
        assert(pending =~= Seq::<BeatMap>::empty());
        assert(pending + maps_walked(server, sort_by, cursor, Seq::empty(), polls)
            =~= maps_walked(server, sort_by, cursor, Seq::empty(), polls));
    }
}

/// A walk through the maps only goes forward: what it has handed out stays
/// as it is, and further steps add to its end.
pub proof fn lemma_map_walk_is_forward_only(
    server: spec_fn(Seq<char>) -> Result<BeatMaps, Error>,
    sort_by: SortBy,
    cursor: Cursor,
    pending: Seq<BeatMap>,
    polls: nat,
    more: nat,
)
    ensures
        maps_walked(server, sort_by, cursor, pending, polls).is_prefix_of(
            maps_walked(server, sort_by, cursor, pending, polls + more),
        ),
    decreases polls,
{
    if polls > 0 {
        assert((polls + more - 1) as nat == (polls - 1) as nat + more);
        if pending.len() > 0 {
            lemma_map_walk_is_forward_only(
                server,
                sort_by,
                cursor,
                pending.drop_first(),
                (polls - 1) as nat,
                more,
            );
        } else {
            match cursor.wants(sort_by) {
                None => {},
                Some(address) => {
                    let response = server(address);
                    lemma_map_walk_is_forward_only(
                        server,
                        sort_by,
                        cursor.after(response),
                        maps_of(cursor.yields(response)),
                        (polls - 1) as nat,
                        more,
                    );
                },
            }
        }
    }
}

/// A walk through the maps hands out the maps of the pages, page after page
/// and within each page in its order: given one step for each map and one for
/// each pull, it hands out the maps at hand and then exactly the maps of the
/// pages that the walk through the pages hands out in as many pulls.
pub proof fn lemma_maps_are_the_pages_in_order(
    server: spec_fn(Seq<char>) -> Result<BeatMaps, Error>,
    sort_by: SortBy,
    cursor: Cursor,
    pending: Seq<BeatMap>,
    pulls: nat,
)
    ensures
        maps_walked(
            server,
            sort_by,
            cursor,
            pending,
            pending.len() + pulls + pages_walked(server, sort_by, cursor, pulls).flatten().len(),
        ) == pending + pages_walked(server, sort_by, cursor, pulls).flatten(),
    decreases pulls,
{
    let pages = pages_walked(server, sort_by, cursor, pulls);
    let polls = pulls + pages.flatten().len();
    lemma_pending_maps_come_first(server, sort_by, cursor, pending, polls);
    let none = Seq::<BeatMap>::empty();
    assert(maps_walked(server, sort_by, cursor, none, polls) == pages.flatten()) by {
        if pulls == 0 {
            assert(pages.flatten() =~= none);
        } else {
            match cursor.wants(sort_by) {
                None => {
                    assert(pages.flatten() =~= none);
                },
                Some(address) => {
                    let response = server(address);
                    let next = cursor.after(response);
                    let docs = maps_of(cursor.yields(response));
                    let rest = pages_walked(server, sort_by, next, (pulls - 1) as nat);
                    lemma_maps_are_the_pages_in_order(
                        server,
                        sort_by,
                        next,
                        docs,
                        (pulls - 1) as nat,
                    );
                    match cursor.yields(response) {
                        Some(page) => {
                            assert(pages == seq![docs] + rest);
                            assert(pages.first() == docs);
                            assert(pages.drop_first() =~= rest);
                            assert(pages.flatten() == docs + rest.flatten());
                        },
                        None => {
                            assert(pages == rest);
                            assert(docs + rest.flatten() =~= rest.flatten());
                        },
                    }
                    assert((polls - 1) as nat == docs.len() + (pulls - 1) as nat
                        + rest.flatten().len());
                },
            }
        }
    }
}

} // verus!
