//! A typed, transport-free client core for the BeatSaver map listing.
//!
//! The crate decides which address to ask for and what to do with each
//! answer; performing the request is left to the caller.

pub mod error;
pub mod maps;
pub mod models;
pub mod sort;
pub mod stream;
pub mod url;
pub mod walk;

pub use error::Error;
pub use maps::Maps;
pub use sort::SortBy;
pub use stream::{Cursor, MapStream, PageStream, Step};
