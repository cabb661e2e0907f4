//! Conversion library for legacy block-structured dependency manifests.
//!
//! The library parses a line-oriented manifest made of named blocks
//! (`[source]`, `[packages]`, `[dev-packages]`, plus standalone interpreter
//! settings lines), builds a document model of sources, packages and
//! interpreter settings, and serializes that model into the target
//! section/array/table syntax.

pub mod attr;
pub mod errors;
pub mod laws;
pub mod package;
pub mod pipenv;
pub mod pipenv_content;
pub mod processors;
pub mod source;
pub mod strutil;
