//! Fetching release artifacts with integrity checking and progress reporting.
//!
//! The crate holds the decision logic of three operations: downloading a file
//! while hashing it, choosing the asset of the latest release of a repository,
//! and unpacking an archive entry by entry. Each operation is a state machine
//! that a driver feeds with what happened outside (a response arrived, a chunk
//! was written, an entry was read) and that answers with the items to deliver to
//! the consumer and the next thing to do.

pub mod digest;
pub mod download;
pub mod download_laws;
pub mod entry_path;
pub mod error;
pub mod extract;
pub mod extract_laws;
pub mod hex_text;
pub mod progress;
pub mod release;

pub use crate::download::download;
pub use crate::error::DownloadError;
pub use crate::extract::{extract, extract_zip};
pub use crate::release::download_github;
