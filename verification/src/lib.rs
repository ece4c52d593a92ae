//! Core of an incremental full-text indexer over directories of markdown and
//! plain-text files.
//!
//! The crate decides *what* an indexing pass feeds to and deletes from an
//! external inverted-index engine, and *when* a subtree is already up to
//! date: path classification, directory-walk decisions, document identity and
//! update planning, per-(index, source) watermark bookkeeping, configuration
//! lookups, and search-result mapping. All filesystem and engine I/O stays
//! with the caller, which drives the verified state machines and executes the
//! plans they produce.

pub mod config;
pub mod env;
pub mod indexer;
pub mod path;
pub mod search;
pub mod table;
pub mod text;
pub mod time;
pub mod timestamp;
pub mod update;
pub mod walk;
