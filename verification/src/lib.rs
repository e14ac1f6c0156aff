//! Keeps a cached installer in step with the latest published release.
//!
//! The crate holds the decisions of that job: which asset of a release is the
//! installer, which hash the release notes publish for it, what the digest of
//! the cached file is, and what has to happen to the file. Fetching the
//! release and touching the disk is left to the caller.

pub mod digest;
pub mod hex;
pub mod notes;
pub mod release;
pub mod text;
pub mod updater;
