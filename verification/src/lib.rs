//! Core of a personal audio library: the catalog of audio files, tags,
//! artists and directories; the scanner that records what a walk of the
//! library found; the grouper that ties audio files to their directories;
//! the queue of deferred artist lookups; and the resolver that drains the
//! queue under a rate limit.
//!
//! The crate holds the state and the rules, and does no input or output of
//! its own. A program around it walks the file system, asks the extractor
//! about each file, calls the external directory, sleeps, and keeps the
//! catalog and the queue in a store. What the crate decides is stated in the
//! contracts of its functions, over the views of its types:
//!
//! - [`catalog`] and [`table`]: the tables, with ascending ids and one audio
//!   record for each `uri`;
//! - [`scanner`], [`grouper`] and [`media`]: one scan;
//! - [`queue`] and [`payload`]: the jobs and their stored form;
//! - [`limiter`] and [`musicbrainz`]: the steps of the resolver.

pub mod catalog;
pub mod database;
pub mod entities;
pub mod grouper;
pub mod limiter;
pub mod media;
pub mod musicbrainz;
pub mod payload;
pub mod queue;
pub mod scanner;
pub mod table;
pub mod tags;
pub mod text;
pub mod uri;
pub mod utils;
