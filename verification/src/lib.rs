//! Headroom proxy configuration and URL rewriting, and the file search tool of
//! the developer extension: glob and line-range patterns, file selection and
//! the rendering of search results.

pub mod text;
pub mod pattern;
pub mod paths;
pub mod search;
pub mod headroom;
pub mod wait;
