//! Recursive find and replace over the `.txt` files of a directory tree, in two phases:
//! a preview that shows every matching line before and after the substitution, and,
//! once confirmed, a commit that rewrites the files of the preview's working set.
//!
//! The library decides and computes; the caller reads directories and files, writes
//! files, and hands the results back. [`crawl::Crawler`] collects the files,
//! [`batch::PreviewBatch`] and [`batch::CommitBatch`] run the two phases over a list of
//! files, and [`session::Session`] keeps the state of an interactive run.

pub mod batch;
pub mod commit;
pub mod commit_laws;
pub mod crawl;
pub mod error;
pub mod highlight;
pub mod lines;
pub mod preview;
pub mod session;
pub mod text;
