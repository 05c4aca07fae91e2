//! Line-oriented text search: pick out the lines of a text that contain a
//! query, with or without case folding, and build the search configuration
//! from command-line style arguments.

pub mod config;
pub mod laws;
pub mod matcher;
pub mod text;

pub use config::{Config, ConfigError};
pub use matcher::{matching_lines, search, search_case_insensitive};
pub use text::contains_query;
