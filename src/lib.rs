//! Podcast feed extraction: a verified builder that folds a stream of XML
//! events into a feed document, and a driver that feeds it from quick-xml.

pub mod model;
pub mod builder;
pub mod lexer;
pub mod laws;

pub use builder::{build_feed, FeedBuilder};
pub use lexer::{parse_feed, ParseError};
pub use model::{Enclosure, FeedEvent, PodcastFeed, PodcastItem};
