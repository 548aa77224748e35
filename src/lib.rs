//! A media-library catalog engine: classification of directory entries,
//! natural episode ordering, the recursive folder walker, the stale-entry
//! diff between a stored snapshot and the live tree, the catalog store with
//! its reconciliation, and the parsers for the media tools' text output.
pub mod text;
pub mod timestamp;
pub mod paths;
pub mod mpv;
pub mod model;
pub mod episode;
pub mod classify;
pub mod walk;
pub mod diff;
pub mod catalog;
pub mod sync;
pub mod laws;
pub mod queries;
pub mod playlist;
pub mod records;
pub mod tray;
