//! Verified core of a repository subtree downloader.
//!
//! The library resolves a remote path against a repository tree listing,
//! filters the listing to the files under that path, maps each matched file
//! to its local destination, and models the orchestration loop that drives
//! a caller's progress callback while concurrent fetch workers report in
//! through a shared, mutually exclusive progress counter.

pub mod download;
pub mod job;
pub mod paths;
pub mod progress;
pub mod tree;
