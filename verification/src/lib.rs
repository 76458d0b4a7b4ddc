//! A multi-agent orchestration library: agents with roles, tasks with
//! dependencies, a dependency-respecting scheduler, shared memories and
//! tool descriptions.
pub mod api;
pub mod config;
mod ids;
pub mod memory;
pub mod orchestration;
pub mod text;
pub mod tools;
