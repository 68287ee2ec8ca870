//! A small line-oriented text search library: split a text body into lines and keep
//! those that contain a query, either exactly or after lowercasing both sides.
pub mod config;
pub mod laws;
pub mod matcher;
pub mod text;

pub use config::{search_with, split_args, Config, GrepError};
pub use matcher::{line_contains, search, search_case_insensitive};
pub use text::split_lines;
