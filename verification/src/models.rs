//! The records of the map listing.
//!
//! Plain data, owned by whoever holds it: a page owns its maps until it hands
//! them on, and no map refers back to the page it came from.

use vstd::prelude::*;

verus! {

/// A binary64 number, held by its IEEE 754 bit pattern.
///
/// Two values are equal when their bit patterns are.
#[derive(Debug, Clone, Copy, PartialEq, Eq)]
pub struct Float64 {
    pub bits: u64,
}

/// One page of the listing, with the page numbers around it.
#[derive(Debug, PartialEq)]
pub struct BeatMaps {
    /// The maps of this page, in the order in which they were served.
    pub docs: Vec<BeatMap>,
    /// The number of maps over all pages.
    pub total_docs: u32,
    pub last_page: u32,
    pub prev_page: Option<u32>,
    /// The page that follows this one; `None` on the last page.
    pub next_page: Option<u32>,
}

/// One map of the listing.
#[derive(Debug, PartialEq)]
pub struct BeatMap {
    pub metadata: Metadata,
    pub stats: Stats,
    pub description: String,
    pub id: String,
    pub key: String,
    pub name: String,
    pub uploader: Uploader,
    /// The time of upload, as served.
    pub uploaded: String,
    pub hash: String,
    pub direct_download: String,
    pub download_url: String,
    pub cover_url: String,
}

#[derive(Debug, PartialEq)]
pub struct Metadata {
    pub song_name: String,
    pub song_sub_name: String,
    pub song_author_name: String,
    pub level_author_name: String,
    pub bpm: Float64,
    pub difficulties: Difficulties,
    pub characteristics: Vec<Characteristic>,
}

/// The difficulty tiers that a map offers.
#[derive(Debug, PartialEq)]
pub struct Difficulties {
    pub easy: bool,
    pub normal: bool,
    pub hard: bool,
    pub expert: bool,
    pub expert_plus: bool,
}

#[derive(Debug, PartialEq)]
pub struct Characteristic {
    pub name: String,
    pub difficulties: CharacteristicDifficulties,
}

/// The figures of each tier of one characteristic; `None` where the
/// characteristic has no data for the tier.
#[derive(Debug, PartialEq)]
pub struct CharacteristicDifficulties {
    pub easy: Option<Difficulty>,
    pub normal: Option<Difficulty>,
    pub hard: Option<Difficulty>,
    pub expert: Option<Difficulty>,
    pub expert_plus: Option<Difficulty>,
}

/// The figures of one tier, each of which may be missing.
#[derive(Debug, PartialEq)]
pub struct Difficulty {
    pub duration: Option<Float64>,
    pub length: Option<Float64>,
    pub bombs: Option<Float64>,
    pub notes: Option<Float64>,
    pub obstacles: Option<Float64>,
    pub njs: Option<Float64>,
    pub njs_offset: Option<Float64>,
}

#[derive(Debug, PartialEq)]
pub struct Stats {
    pub downloads: u64,
    pub plays: u64,
    pub down_votes: u64,
    pub up_votes: u64,
    pub heat: Float64,
    pub rating: Float64,
}

#[derive(Debug, PartialEq)]
pub struct Uploader {
    pub id: String,
    pub username: String,
}

} // verus!
