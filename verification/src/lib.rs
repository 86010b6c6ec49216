//! Literal line matching over text files: which lines of which files match a
//! pattern under a set of flags, and how each match is reported.
//!
//! The pattern is plain text, never a regular expression. [`line_matches`]
//! judges one line, [`format_result`] writes one report, and [`grep`] puts
//! the two together over a list of files that have been read.

pub mod flags;
pub mod matcher;
pub mod render;
pub mod search;
pub mod text;

pub use flags::Flags;
pub use matcher::line_matches;
pub use render::format_result;
pub use search::{grep, scan_file, scan_line, FileText, ReadFailure, Step};
