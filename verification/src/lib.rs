//! A polite client for downloading Common Crawl data: the decisions it makes (which URL
//! to ask for, where each file lands, how an HTTP answer is judged, which index lines to
//! keep, when a run has failed) are stated and proved here; the program around the
//! library makes the requests and writes the files.

pub mod cli;
pub mod download;
pub mod errors;
pub mod paths_file;
pub mod snapshot;
pub mod text;
pub mod third_party;
