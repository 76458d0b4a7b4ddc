//! Memories shared by the agents of a crew.
pub mod short_term;
pub mod contextual;
pub mod entity;
pub mod in_memory;
pub mod vector;
pub mod system;

pub use system::MemorySystem;
