//! Recursively walks a directory tree, filters entries against a configurable
//! exclusion policy (folder names, file names, extensions), and concatenates
//! the content of surviving files into a single formatted stream.
//!
//! This crate holds the verified core: the exclusion predicates, argument
//! resolution, the formatter, and the filter/render pipeline. All filesystem
//! access (walking, reading, writing) lives with the caller, which hands the
//! library plain values.

pub mod args;
pub mod config;
pub mod entry;
pub mod formatter;
pub mod pipeline;
pub mod strutil;
pub mod validator;
