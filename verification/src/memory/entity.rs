//! Entity memory: facts about entities, kept in an SQL store of type `Q`
//! under keys prefixed with `entity:`.
use std::sync::Arc;
use vstd::prelude::*;
use vstd::string::*;

verus! {

/// Facts about entities, kept in the SQL store `storage`.
#[derive(Debug)]
pub struct EntityMemory<Q> {
    storage: Arc<Q>,
}

/// The store key for the entity key `key`.
pub open spec fn entity_key_text(key: Seq<char>) -> Seq<char> {
    "entity:"@ + key
}

impl<Q> EntityMemory<Q> {
    /// The store the memory keeps its facts in.
    pub closed spec fn backing_store(&self) -> Arc<Q> {
        self.storage
    }

    /// An entity memory kept in `storage`.
    pub fn new(storage: Arc<Q>) -> (memory: Self)
        ensures
            memory.backing_store() == storage,
    {
        EntityMemory { storage }
    }

    /// The store the memory keeps its facts in.
    pub fn storage(&self) -> (storage: &Arc<Q>)
        ensures
            *storage == self.backing_store(),
    {
        &self.storage
    }

    /// The store key under which the entity key `key` is filed.
    pub fn entity_key(key: &str) -> (stored_key: String)
        ensures
            stored_key@ == entity_key_text(key@),
    {
        let mut stored_key = "entity:".to_string();
        stored_key.append(key);
        stored_key
    }
}

} // verus!
