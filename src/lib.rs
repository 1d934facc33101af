//! A photo catalog: walks a directory tree, hashes each regular file it finds
//! and hands (path, hash) records to a catalog store.
//!
//! The library holds the decisions of an indexing run as a state machine
//! ([`IndexRun`]); the caller performs the directory listings, file reads and
//! store inserts that the machine asks for and reports their outcomes back.

pub mod catalog;
pub mod digest;
pub mod indexer;
pub mod model;

pub use catalog::{photos_from_rows, row_matches};
pub use digest::{hash_bytes, is_digest_text, lemma_equal_bytes_equal_hash, sha256_hex};
pub use indexer::{
    Action, DirEntry, EntryKind, Event, IndexError, IndexRun, Phase, RunView, SkipReason, Skipped, RootStatus,
};
pub use model::Photo;
