//! The memories of a crew, bundled: a short-term memory always, and
//! optionally an SQL store of type `Q`, a vector memory, an entity memory
//! and a contextual memory.
use std::sync::Arc;
use vstd::prelude::*;

use crate::memory::contextual::ContextualMemory;
use crate::memory::entity::EntityMemory;
use crate::memory::short_term::ShortTermMemory;
use crate::memory::vector::VectorMemory;

verus! {

/// The memories a crew may draw on.
#[derive(Clone, Debug)]
pub struct MemorySystem<Q> {
    pub short_term: Arc<ShortTermMemory>,
    pub sql: Option<Arc<Q>>,
    pub vector: Option<Arc<VectorMemory>>,
    pub entity: Option<Arc<EntityMemory<Q>>>,
    pub contextual: Option<Arc<ContextualMemory>>,
}

impl<Q> MemorySystem<Q> {
    /// An empty short-term memory and nothing else.
    pub fn new() -> (system: Self)
        ensures
            system.short_term@ == Seq::<(Seq<char>, Seq<char>)>::empty(),
            system.sql is None,
            system.vector is None,
            system.entity is None,
            system.contextual is None,
    {
        MemorySystem {
            short_term: Arc::new(ShortTermMemory::new()),
            sql: None,
            vector: None,
            entity: None,
            contextual: None,
        }
    }

    /// The same system, with the SQL store `sql`.
    pub fn with_sql(self, sql: Arc<Q>) -> (system: Self)
        ensures
            system == (MemorySystem { sql: Some(sql), ..self }),
    {
        let mut system = self;
        system.sql = Some(sql);
        system
    }

    /// The same system, with the vector memory `vector`.
    pub fn with_vector(self, vector: Arc<VectorMemory>) -> (system: Self)
        ensures
            system == (MemorySystem { vector: Some(vector), ..self }),
    {
        let mut system = self;
        system.vector = Some(vector);
        system
    }

    /// The same system, with the entity memory `entity`.
    pub fn with_entity(self, entity: Arc<EntityMemory<Q>>) -> (system: Self)
        ensures
            system == (MemorySystem { entity: Some(entity), ..self }),
    {
        let mut system = self;
        system.entity = Some(entity);
        system
    }

    /// The same system, with the contextual memory `contextual`.
    pub fn with_contextual(self, contextual: Arc<ContextualMemory>) -> (system: Self)
        ensures
            system == (MemorySystem { contextual: Some(contextual), ..self }),
    {
        let mut system = self;
        system.contextual = Some(contextual);
        system
    }
}

} // verus!
