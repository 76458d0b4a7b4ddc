use std::sync::Arc;

use rustcrew::memory::contextual::ContextualMemory;
use rustcrew::memory::entity::EntityMemory;
use rustcrew::memory::in_memory::InMemoryMemory;
use rustcrew::memory::short_term::ShortTermMemory;
use rustcrew::memory::vector::VectorMemory;
use rustcrew::memory::MemorySystem;

#[test]
fn stored_values_are_retrieved() {
    let mut m = ShortTermMemory::new();
    assert_eq!(m.retrieve("a"), None);
    m.store("a", "one");
    m.store("b", "two");
    assert_eq!(m.retrieve("a").as_deref(), Some("one"));
    m.store("a", "uno");
    assert_eq!(m.retrieve("a").as_deref(), Some("uno"));
    assert_eq!(m.retrieve("b").as_deref(), Some("two"));
}

#[test]
fn search_returns_matching_values_up_to_the_limit() {
    let mut m = ShortTermMemory::new();
    m.store("1", "rust is fast");
    m.store("2", "go is simple");
    m.store("3", "rust is safe");
    m.store("4", "rust again");
    assert_eq!(m.search("rust", 2), vec!["rust is fast".to_string(), "rust is safe".to_string()]);
    assert_eq!(m.search("rust", 10).len(), 3);
    assert!(m.search("python", 5).is_empty());
    assert!(m.search("rust", 0).is_empty());
    assert_eq!(m.search("", 10).len(), 4);
}

#[test]
fn entity_keys_are_prefixed() {
    assert_eq!(EntityMemory::<()>::entity_key("alice"), "entity:alice");
    let store = Arc::new(5u8);
    let e = EntityMemory::new(store.clone());
    assert_eq!(**e.storage(), 5);
}

#[test]
fn vector_memory_endpoints() {
    let v = VectorMemory::new("http://localhost:8000", "notes");
    assert_eq!(v.endpoint("upsert"), "http://localhost:8000/api/v1/collections/notes/upsert");
    assert_eq!(v.endpoint("query"), "http://localhost:8000/api/v1/collections/notes/query");
}

#[test]
fn memory_system_builders() {
    let system: MemorySystem<u8> = MemorySystem::new();
    assert!(system.sql.is_none() && system.vector.is_none());
    assert!(system.short_term.retrieve("x").is_none());
    let system = system
        .with_sql(Arc::new(3))
        .with_vector(Arc::new(VectorMemory::new("u", "c")))
        .with_entity(Arc::new(EntityMemory::new(Arc::new(3))))
        .with_contextual(Arc::new(ContextualMemory::new()));
    assert_eq!(system.sql.as_deref(), Some(&3));
    assert!(system.vector.is_some() && system.entity.is_some() && system.contextual.is_some());
    let _table = InMemoryMemory::new();
}

#[test]
fn vector_answers_are_read() {
    assert_eq!(VectorMemory::first_document(&None), None);
    assert_eq!(VectorMemory::first_document(&Some(vec![])), None);
    assert_eq!(VectorMemory::first_document(&Some(vec![None, Some("b".to_string())])), None);
    assert_eq!(
        VectorMemory::first_document(&Some(vec![Some("a".to_string()), Some("b".to_string())])).as_deref(),
        Some("a")
    );
    assert!(VectorMemory::query_documents(&None).is_empty());
    assert!(VectorMemory::query_documents(&Some(vec![None])).is_empty());
    let answer = Some(vec![
        Some(vec![Some("x".to_string()), None, Some("y".to_string())]),
        Some(vec![Some("ignored".to_string())]),
    ]);
    assert_eq!(VectorMemory::query_documents(&answer), vec!["x".to_string(), "y".to_string()]);
}
