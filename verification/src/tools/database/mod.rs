//! Database tools.
pub mod mongodb;
pub mod mysql;
pub mod rows;
pub mod snowflake;
