//! A patch engine for text-based configuration and script files.
//!
//! A *feature* bundles regular-expression substitutions on the files of an
//! installation. Before the first substitution touches a file, the file is
//! copied into a backup directory; rolling the feature back copies it from
//! there again, and a feature that fails half way is rolled back at once.
//!
//! The engine does not touch the disk. Every file that it works on lives in
//! a [`store::FileStore`], a picture in memory of the paths that take part.
//! A front end reads the paths that a call is going to work on into a store
//! ([`components::Charism::watched_paths`] and
//! [`assemble::Assemble::target_paths`] name them), hands the store to the
//! call, and writes back what has changed.
//!
//! - [`error`]: the error type.
//! - [`table`] and [`store`]: the store and its nodes.
//! - [`pattern`]: regular expressions, taken from the `regex` crate.
//! - [`utils`]: paths, and the operations on single files.
//! - [`components`]: operations and features.
//! - [`assemble`]: the catalog of features and the registry.
//! - [`panel`]: the state of a front end with one switch for each feature.
//! - [`laws`]: what holds of all of these together.
//!
//! Every function is verified against a contract stated over the views of
//! its arguments: a store is a map from paths to nodes, a feature a list of
//! operations with the files that they touch.

pub mod error;
pub mod table;
pub mod store;
pub mod pattern;
pub mod utils;
pub mod components;
pub mod assemble;
pub mod panel;
pub mod laws;
