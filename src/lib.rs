pub mod config;
pub mod laws;
pub mod lines;
pub mod search;
mod split;
pub mod text;

pub use config::{Config, ConfigError};
pub use search::{matching_lines, search, search_case_insensitive};
pub use text::line_contains;
