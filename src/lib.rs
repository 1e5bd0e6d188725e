//! Extracts the text files of a directory tree into one document
//! (XML, JSON or plain text).
//!
//! The library holds the decisions: glob matching of paths, which
//! directories are descended into, which files are collected, the
//! collected map itself and the three output formats. Walking the disk,
//! reading files and writing the result are left to the caller, which
//! drives a [`Collector`] with what it finds.

pub mod collector;
pub mod config;
pub mod error;
pub mod files;
pub mod format;
pub mod matcher;
pub mod paths;

pub use collector::Collector;
pub use config::{Config, OutputFormat};
pub use error::RepoError;
pub use files::{files_map_to_vec, FileMap, RepoFile};
pub use format::{format_as_json, format_as_text, format_as_xml, generate_output, json_document};
pub use matcher::build_glob_set;
