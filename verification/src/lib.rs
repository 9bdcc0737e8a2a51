//! Verified core of a terminal viewer for tab-delimited alignment records.
//!
//! The library owns the logic that is worth proving: how a directory scan is
//! filtered and ordered (`scan`), how a file's lines become table rows
//! (`table`), how a query selects rows (`search`), how the interactive state
//! machine reacts to keys and to loader messages (`state`), and how queued
//! loader results are drained (`channel`).  Terminal rendering, filesystem
//! reads and worker threads live outside the library and hand it plain
//! values.

pub mod channel;
pub mod scan;
pub mod search;
pub mod state;
pub mod table;
pub mod text;
