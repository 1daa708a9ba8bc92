//! Named references (tags) for the versions of an append-only dataset.
//!
//! A tag binds a human-chosen name to one committed version. The crate holds
//! the rules for tag names, the layout of tag objects under a dataset root and
//! the decisions behind listing, creating and deleting tags. Storage itself is
//! left to the caller, who performs each request and reports what happened.
//!
//! Beside the tags stand two smaller pieces of the dataset format: the
//! descriptions of array encodings and the configuration of text analyzers.

pub mod error;
pub mod format;
pub mod host;
pub mod laws;
pub mod ops;
pub mod paths;
pub mod refs;
pub mod tags;
pub mod text;
pub mod tokenizer;
