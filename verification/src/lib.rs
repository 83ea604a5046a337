//! Step-wise symbolic-link resolution.
//!
//! Resolves a filesystem path one symbolic link at a time, exposing every
//! intermediate hop instead of collapsing straight to the final real path.
//! The core is pure: paths are component lists, the filesystem is consulted
//! through probe values that the caller supplies (either from an in-memory
//! table or, in a real program, from the operating system).

pub mod engine;
pub mod expand;
pub mod fsmodel;
pub mod hops;
pub mod laws;
pub mod paths;

pub use engine::ReadlinksIterator;
pub use engine::ResolveError;
pub use engine::resolve;
pub use expand::expand_path;
pub use fsmodel::FsEntry;
pub use fsmodel::FsTable;
pub use fsmodel::Probe;
pub use hops::FindOutcome;
pub use hops::HopSearch;
pub use hops::SymlinkPath;
pub use hops::find_symlink;
pub use paths::NodePath;
pub use paths::parse_path;
