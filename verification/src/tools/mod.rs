//! Descriptions of the tools agents can call, and the pure parts of what
//! they do with requests and answers.
pub mod browser;
pub mod database;
pub mod file;
pub mod github;
pub mod interpreter;
pub mod vector_lookup;
pub mod web_search;
