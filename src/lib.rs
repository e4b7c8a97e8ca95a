//! Line-oriented text search: find the lines of a text that contain a query,
//! optionally ignoring case, highlighting the match and numbering the lines.

pub mod text;
pub mod search;
pub mod config;
pub mod greeting;
pub mod laws;
