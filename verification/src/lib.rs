//! A key/value cache whose entries carry an absolute expiry time in milliseconds since
//! the Unix epoch, with an optional copy of each entry in a file named after a prefix of
//! the SHA-256 digest of its key.
//!
//! The table of entries, the run state of the cache and the planning of each file
//! update are verified here; the program around them reads and writes the files, keeps
//! the shared state and runs the background cleanup.

pub mod cache;
pub mod clock;
pub mod codec;
pub mod laws;
pub mod naming;
pub mod pairs;
pub mod persist;
pub mod table;

pub use cache::{Cache, CacheConfig, CacheError, Registry, RunState};
pub use persist::FileAction;
pub use table::EntryTable;
