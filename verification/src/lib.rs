//! Packs the source files of a directory tree into one text document.
//!
//! The crate holds the decisions of a packaging run: how a rule string is read,
//! which paths the ignore patterns exclude, how a file is framed in the output,
//! and in which order a run lists, probes, reads and writes. It touches no file
//! itself: a caller performs each requested action and reports what came of it.

pub mod block;
pub mod config;
pub mod error;
pub mod matcher;
pub mod packager;
pub mod rules;

pub use block::write_file_to_output;
pub use config::PackagerConfig;
pub use error::{Failure, PackError, Scope};
pub use matcher::{compile_patterns, matches_any, should_ignore};
pub use packager::{Event, Packager, PathKind, Request};
pub use rules::{merge_rule_config, parse_rule_string};
