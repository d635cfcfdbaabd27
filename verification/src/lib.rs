//! The verified core of a local web GUI over an ExcelGRAG corpus: how a
//! request names a workbook, how a stored graph is flattened for the
//! browser, how an index job proceeds, and how the corpus watcher decides
//! what changed.

pub mod text;
pub mod paths;
pub mod corpus;
pub mod graph;
pub mod sheets;
pub mod tally;
pub mod dto;
pub mod api;
pub mod retrieve;
pub mod events;
pub mod watch;
pub mod index_job;
