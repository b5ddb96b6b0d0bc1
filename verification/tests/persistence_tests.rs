use serde_json::Value;
use virust::persistence::{ErrorKind, InMemoryPersistence, PersistenceError};

fn json(text: &str) -> Value {
    serde_json::from_str(text).unwrap()
}

#[test]
fn test_create_and_get() {
    let mut persistence = InMemoryPersistence::new();
    let item = json(r#"{"name": "test", "value": 42}"#);

    let id = persistence.create("test_collection", item.clone()).unwrap();
    let retrieved = persistence.get("test_collection", &id).unwrap().unwrap();

    assert_eq!(retrieved, item);
}

#[test]
fn test_get_not_found() {
    let persistence = InMemoryPersistence::new();
    let result = persistence.get("test_collection", "nonexistent").unwrap();

    assert!(result.is_none());
}

#[test]
fn test_list() {
    let mut persistence = InMemoryPersistence::new();

    let item1 = json(r#"{"name": "test1"}"#);
    let item2 = json(r#"{"name": "test2"}"#);

    persistence.create("test_collection", item1).unwrap();
    persistence.create("test_collection", item2).unwrap();

    let items = persistence.list("test_collection").unwrap();
    assert_eq!(items.len(), 2);
}

#[test]
fn test_list_empty_collection() {
    let persistence = InMemoryPersistence::new();
    let items = persistence.list("nonexistent").unwrap();

    assert!(items.is_empty());
}

#[test]
fn test_update() {
    let mut persistence = InMemoryPersistence::new();
    let item = json(r#"{"name": "test", "value": 42}"#);

    let id = persistence.create("test_collection", item).unwrap();

    let updated_item = json(r#"{"name": "updated", "value": 100}"#);
    let result = persistence
        .update("test_collection", &id, updated_item.clone())
        .unwrap();

    assert_eq!(result, updated_item);

    let retrieved = persistence.get("test_collection", &id).unwrap().unwrap();
    assert_eq!(retrieved, updated_item);
}

#[test]
fn test_update_not_found() {
    let mut persistence = InMemoryPersistence::new();
    let item = json(r#"{"name": "test"}"#);

    let result = persistence.update("test_collection", "nonexistent", item);

    assert!(matches!(result, Err(PersistenceError::NotFound { .. })));
}

#[test]
fn test_delete() {
    let mut persistence = InMemoryPersistence::new();
    let item = json(r#"{"name": "test"}"#);

    let id = persistence.create("test_collection", item).unwrap();
    persistence.delete("test_collection", &id).unwrap();

    let result = persistence.get("test_collection", &id).unwrap();
    assert!(result.is_none());
}

#[test]
fn test_delete_not_found() {
    let mut persistence = InMemoryPersistence::new();
    let result = persistence.delete("test_collection", "nonexistent");

    assert!(matches!(result, Err(PersistenceError::NotFound { .. })));
}

#[test]
fn test_multiple_collections() {
    let mut persistence = InMemoryPersistence::new();

    let item1 = json(r#"{"name": "item1"}"#);
    let item2 = json(r#"{"name": "item2"}"#);

    let id1 = persistence.create("collection1", item1).unwrap();
    let id2 = persistence.create("collection2", item2).unwrap();

    let items1 = persistence.list("collection1").unwrap();
    let items2 = persistence.list("collection2").unwrap();

    assert_eq!(items1.len(), 1);
    assert_eq!(items2.len(), 1);

    let retrieved1 = persistence.get("collection1", &id1).unwrap().unwrap();
    let retrieved2 = persistence.get("collection2", &id2).unwrap().unwrap();

    assert_eq!(retrieved1, json(r#"{"name": "item1"}"#));
    assert_eq!(retrieved2, json(r#"{"name": "item2"}"#));
}

#[test]
fn create_with_taken_id_is_a_collision() {
    let mut persistence = InMemoryPersistence::new();
    let first = persistence
        .create_with_id("c", "abc".to_string(), json("1"))
        .unwrap();
    assert_eq!(first, "abc");
    let second = persistence.create_with_id("c", "abc".to_string(), json("2"));
    match second {
        Err(PersistenceError::StorageError(m)) => assert_eq!(m, "ID collision detected"),
        other => panic!("unexpected {:?}", other),
    }
    // The first item is untouched.
    assert_eq!(persistence.get("c", "abc").unwrap(), Some(json("1")));
}

#[test]
fn generated_ids_are_uuids() {
    let mut persistence = InMemoryPersistence::new();
    let id1 = persistence.create("c", json("1")).unwrap();
    let id2 = persistence.create("c", json("2")).unwrap();
    assert_eq!(id1.len(), 36);
    assert_eq!(id1.matches('-').count(), 4);
    assert_ne!(id1, id2);
}

#[test]
fn list_keeps_creation_order_and_update_keeps_place() {
    let mut p = InMemoryPersistence::new();
    p.create_with_id("c", "a".to_string(), json("1")).unwrap();
    p.create_with_id("c", "b".to_string(), json("2")).unwrap();
    p.create_with_id("c", "d".to_string(), json("3")).unwrap();
    p.update("c", "b", json("20")).unwrap();
    assert_eq!(p.list("c").unwrap(), vec![json("1"), json("20"), json("3")]);
    p.delete("c", "a").unwrap();
    assert_eq!(p.list("c").unwrap(), vec![json("20"), json("3")]);
}

#[test]
fn not_found_errors_name_collection_and_id() {
    let mut p = InMemoryPersistence::new();
    p.create_with_id("todos", "1".to_string(), json("true")).unwrap();
    match p.update("todos", "2", json("false")) {
        Err(PersistenceError::NotFound { id }) => assert_eq!(id, "todos:2"),
        other => panic!("unexpected {:?}", other),
    }
    match p.delete("missing", "7") {
        Err(e) => {
            assert_eq!(e.kind(), ErrorKind::NotFound);
            assert_eq!(e.message(), "Item not found: missing:7");
        }
        Ok(()) => panic!("delete of a missing item succeeded"),
    }
    // The failed calls changed nothing.
    assert_eq!(p.list("todos").unwrap(), vec![json("true")]);
}

#[test]
fn error_kinds_and_messages() {
    let e = PersistenceError::InvalidOperation("bad".to_string());
    assert_eq!(e.kind(), ErrorKind::InvalidOperation);
    assert_eq!(e.message(), "Invalid operation: bad");
    let e = PersistenceError::SerializationError("eof".to_string());
    assert_eq!(e.kind(), ErrorKind::Serialization);
    assert_eq!(e.message(), "Serialization error: eof");
    let e = PersistenceError::StorageError("disk".to_string());
    assert_eq!(e.kind(), ErrorKind::Storage);
    assert_eq!(e.message(), "Storage error: disk");
    let e = PersistenceError::NotFound { id: "c:1".to_string() };
    assert_eq!(e.kind(), ErrorKind::NotFound);
    assert_eq!(e.message(), "Item not found: c:1");
}

#[test]
fn default_store_is_empty() {
    let p = InMemoryPersistence::default();
    assert!(p.list("anything").unwrap().is_empty());
}
