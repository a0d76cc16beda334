use std::collections::HashMap;

use beatsaber::models::{
    BeatMap, BeatMaps, Characteristic, CharacteristicDifficulties, Difficulties, Difficulty,
    Float64, Metadata, Stats, Uploader,
};
use beatsaber::{Cursor, Error, Maps, PageStream, SortBy};

fn number(value: f64) -> Float64 {
    Float64 { bits: value.to_bits() }
}

fn song(id: &str) -> BeatMap {
    BeatMap {
        metadata: Metadata {
            song_name: format!("song {id}"),
            song_sub_name: String::new(),
            song_author_name: String::from("author"),
            level_author_name: String::from("mapper"),
            bpm: number(128.5),
            difficulties: Difficulties {
                easy: false,
                normal: true,
                hard: true,
                expert: false,
                expert_plus: false,
            },
            characteristics: vec![Characteristic {
                name: String::from("Standard"),
                difficulties: CharacteristicDifficulties {
                    easy: None,
                    normal: Some(Difficulty {
                        duration: Some(number(256.0)),
                        length: Some(number(120.0)),
                        bombs: Some(number(0.0)),
                        notes: Some(number(311.0)),
                        obstacles: Some(number(12.0)),
                        njs: None,
                        njs_offset: None,
                    }),
                    hard: None,
                    expert: None,
                    expert_plus: None,
                },
            }],
        },
        stats: Stats {
            downloads: 10,
            plays: 3,
            down_votes: 1,
            up_votes: 7,
            heat: number(12.25),
            rating: number(0.75),
        },
        description: String::new(),
        id: String::from(id),
        key: format!("k{id}"),
        name: format!("map {id}"),
        uploader: Uploader { id: String::from("u1"), username: String::from("someone") },
        uploaded: String::from("2019-05-01T12:00:00.000Z"),
        hash: format!("hash-{id}"),
        direct_download: format!("/cdn/{id}.zip"),
        download_url: format!("/api/download/key/{id}"),
        cover_url: format!("/cdn/{id}.jpg"),
    }
}

fn page_of(ids: &[&str], prev_page: Option<u32>, next_page: Option<u32>) -> BeatMaps {
    BeatMaps {
        docs: ids.iter().map(|id| song(id)).collect(),
        total_docs: 60,
        last_page: 5,
        prev_page,
        next_page,
    }
}

fn ids_of(page: &[BeatMap]) -> Vec<&str> {
    page.iter().map(|map| map.id.as_str()).collect()
}

/// A server that answers each address once, and fails for every other.
struct Server {
    answers: HashMap<String, Result<BeatMaps, Error>>,
    asked: Vec<String>,
}

impl Server {
    fn new(maps: &Maps, answers: Vec<(u32, Result<BeatMaps, Error>)>) -> Server {
        Server {
            answers: answers.into_iter().map(|(page, answer)| (maps.page(page), answer)).collect(),
            asked: Vec::new(),
        }
    }

    fn get(&mut self, url: &str) -> Result<BeatMaps, Error> {
        self.asked.push(String::from(url));
        self.answers
            .remove(url)
            .unwrap_or_else(|| Err(Error::ClientSendError(format!("nothing at {url}"))))
    }
}

/// Pulls the stream as an iterator would: one request for each page, until
/// a pull hands out nothing.
fn pull_all(stream: &mut PageStream, server: &mut Server) -> Vec<Vec<BeatMap>> {
    let mut pages = Vec::new();
    while let Some(url) = stream.request() {
        match stream.advance(server.get(&url)) {
            Some(docs) => pages.push(docs),
            None => break,
        }
    }
    pages
}

#[test]
fn iter_pages_walks_three_pages_then_ends() {
    let maps = Maps::new(SortBy::Downloads);
    let mut server = Server::new(
        &maps,
        vec![
            (0, Ok(page_of(&["a", "b"], None, Some(1)))),
            (1, Ok(page_of(&["c"], Some(0), Some(2)))),
            (2, Ok(page_of(&["d", "e", "f"], Some(1), None))),
        ],
    );
    let mut stream = maps.iter_pages();
    let pages = pull_all(&mut stream, &mut server);
    assert_eq!(pages.len(), 3);
    assert_eq!(ids_of(&pages[0]), ["a", "b"]);
    assert_eq!(ids_of(&pages[1]), ["c"]);
    assert_eq!(ids_of(&pages[2]), ["d", "e", "f"]);
    assert_eq!(pages[0], vec![song("a"), song("b")]);
    assert_eq!(stream.cursor(), Cursor::Exhausted);
    assert_eq!(stream.request(), None);
    assert_eq!(
        server.asked,
        [
            "https://beatsaver.com/api/maps/downloads/0",
            "https://beatsaver.com/api/maps/downloads/1",
            "https://beatsaver.com/api/maps/downloads/2",
        ]
    );
}

#[test]
fn iter_pages_ends_silently_when_the_second_page_fails() {
    let maps = Maps::new(SortBy::Hot);
    let mut server = Server::new(
        &maps,
        vec![
            (0, Ok(page_of(&["a", "b"], None, Some(1)))),
            (1, Err(Error::ClientSendError(String::from("connection reset")))),
            (2, Ok(page_of(&["never"], Some(1), None))),
        ],
    );
    let mut stream = maps.iter_pages();
    let pages = pull_all(&mut stream, &mut server);
    assert_eq!(pages.len(), 1);
    assert_eq!(ids_of(&pages[0]), ["a", "b"]);
    assert_eq!(stream.cursor(), Cursor::Exhausted);
    assert_eq!(stream.request(), None);
    assert_eq!(
        server.asked,
        ["https://beatsaver.com/api/maps/hot/0", "https://beatsaver.com/api/maps/hot/1"]
    );
}

#[test]
fn iter_pages_hands_out_nothing_when_the_first_page_fails() {
    let maps = Maps::new(SortBy::Rating);
    let mut server = Server::new(&maps, vec![]);
    let mut stream = maps.iter_pages();
    assert!(pull_all(&mut stream, &mut server).is_empty());
    assert_eq!(stream.cursor(), Cursor::Exhausted);
    assert_eq!(server.asked, ["https://beatsaver.com/api/maps/rating/0"]);
}

#[test]
fn every_kind_of_failure_ends_the_stream_alike() {
    let failures = [
        Error::ClientBuildError(String::from("no backend")),
        Error::ClientSendError(String::from("timed out")),
        Error::ClientJsonError(String::from("missing field `docs`")),
    ];
    for failure in failures {
        let mut stream = Maps::new(SortBy::Plays).iter_pages();
        assert_eq!(stream.advance(Err(failure)), None);
        assert_eq!(stream.cursor(), Cursor::Exhausted);
        assert_eq!(stream.request(), None);
    }
}

#[test]
fn iter_pages_starts_at_page_zero_on_every_call() {
    let maps = Maps::new(SortBy::Latest);
    let mut first = maps.iter_pages();
    assert_eq!(first.cursor(), Cursor::Ready(0));
    assert_eq!(
        first.request(),
        Some(String::from("https://beatsaver.com/api/maps/latest/0"))
    );
    assert!(first.advance(Ok(page_of(&["a"], None, Some(1)))).is_some());
    assert_eq!(first.cursor(), Cursor::Ready(1));

    let mut second = maps.iter_pages();
    assert_eq!(second.cursor(), Cursor::Ready(0));
    assert_eq!(
        second.request(),
        Some(String::from("https://beatsaver.com/api/maps/latest/0"))
    );
    assert_eq!(second.advance(Err(Error::ClientSendError(String::new()))), None);
    assert_eq!(second.cursor(), Cursor::Exhausted);

    // Neither the walk that went on nor the one that ended shows in a new one.
    assert_eq!(first.cursor(), Cursor::Ready(1));
    let third = maps.iter_pages();
    assert_eq!(third.cursor(), Cursor::Ready(0));
    assert_eq!(third.sort_by(), SortBy::Latest);
}

#[test]
fn request_does_not_move_the_stream() {
    let stream = Maps::new(SortBy::Hot).iter_pages();
    assert_eq!(stream.request(), stream.request());
    assert_eq!(stream.cursor(), Cursor::Ready(0));
}

#[test]
fn a_stream_that_is_over_takes_no_more_pages() {
    let mut stream = Maps::new(SortBy::Downloads).iter_pages();
    assert_eq!(
        stream.advance(Ok(page_of(&["a"], None, None))).as_deref().map(ids_of),
        Some(vec!["a"])
    );
    assert_eq!(stream.cursor(), Cursor::Exhausted);
    assert_eq!(stream.advance(Ok(page_of(&["b"], None, Some(1)))), None);
    assert_eq!(stream.cursor(), Cursor::Exhausted);
    assert_eq!(stream.advance(Err(Error::ClientJsonError(String::new()))), None);
    assert_eq!(stream.cursor(), Cursor::Exhausted);
    assert_eq!(stream.request(), None);
}

#[test]
fn iter_pages_goes_where_the_server_points() {
    let maps = Maps::new(SortBy::Plays);
    let mut server = Server::new(
        &maps,
        vec![
            (0, Ok(page_of(&["a"], None, Some(7)))),
            (7, Ok(page_of(&["b"], None, Some(3)))),
            (3, Ok(page_of(&["c"], None, None))),
            (1, Ok(page_of(&["skipped"], None, Some(2)))),
        ],
    );
    let mut stream = maps.iter_pages();
    let pages = pull_all(&mut stream, &mut server);
    let ids: Vec<Vec<&str>> = pages.iter().map(|page| ids_of(page)).collect();
    assert_eq!(ids, [["a"], ["b"], ["c"]]);
    assert_eq!(
        server.asked,
        [
            "https://beatsaver.com/api/maps/plays/0",
            "https://beatsaver.com/api/maps/plays/7",
            "https://beatsaver.com/api/maps/plays/3",
        ]
    );
}

#[test]
fn an_empty_page_is_a_page() {
    let maps = Maps::new(SortBy::Hot);
    let mut server = Server::new(
        &maps,
        vec![(0, Ok(page_of(&[], None, Some(1)))), (1, Ok(page_of(&["a"], Some(0), None)))],
    );
    let mut stream = maps.iter_pages();
    let pages = pull_all(&mut stream, &mut server);
    assert_eq!(pages.len(), 2);
    assert!(pages[0].is_empty());
    assert_eq!(ids_of(&pages[1]), ["a"]);
}

#[test]
fn a_stream_can_be_made_without_maps() {
    let stream = PageStream::new(SortBy::Rating);
    assert_eq!(stream.sort_by(), SortBy::Rating);
    assert_eq!(stream.cursor(), Cursor::Ready(0));
    assert_eq!(
        stream.request(),
        Some(String::from("https://beatsaver.com/api/maps/rating/0"))
    );
}

#[test]
fn maps_keep_what_the_server_sent() {
    let mut stream = Maps::new(SortBy::Hot).iter_pages();
    let docs = stream.advance(Ok(page_of(&["a"], None, None))).unwrap();
    let map = &docs[0];
    assert_eq!(map.id, "a");
    assert_eq!(map.uploader.username, "someone");
    assert_eq!(f64::from_bits(map.metadata.bpm.bits), 128.5);
    assert_eq!(f64::from_bits(map.stats.rating.bits), 0.75);
    let normal = map.metadata.characteristics[0].difficulties.normal.as_ref().unwrap();
    assert_eq!(normal.notes.map(|notes| f64::from_bits(notes.bits)), Some(311.0));
    assert_eq!(normal.njs, None);
    assert!(map.metadata.characteristics[0].difficulties.expert_plus.is_none());
}
