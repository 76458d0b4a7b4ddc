//! The pure side of the HTTP interface: request models and building crews
//! from them.
pub mod models;
