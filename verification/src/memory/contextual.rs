//! Contextual memory: a place for what an interaction is about. It keeps
//! nothing yet.
use vstd::prelude::*;

verus! {

/// A memory for interaction context; it keeps nothing yet.
#[derive(Debug)]
pub struct ContextualMemory {}

impl ContextualMemory {
    /// A contextual memory.
    pub fn new() -> (memory: Self) {
        ContextualMemory {}
    }
}

} // verus!
