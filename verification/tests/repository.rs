use todo_repository::handlers::{create_todo, update_todo};
use todo_repository::memory::TodoRepositoryForMemory;
use todo_repository::persistence::{classify_fetch_error, delete_outcome, merged_update};
use todo_repository::repositories::{
    CreatTodo, RepositoryError, Todo, TodoRepository, UpdateTodo,
};

fn creat_payload(text: &str) -> CreatTodo {
    CreatTodo { text: text.to_string() }
}

fn update_payload(text: &str, completed: bool) -> UpdateTodo {
    UpdateTodo { text: text.to_string(), completed }
}

#[test]
fn new_todo_is_not_completed() {
    let t = Todo::new(7, "water plants".to_string());
    assert_eq!(t.id, 7);
    assert_eq!(t.text, "water plants");
    assert!(!t.completed);
}

#[test]
fn create_assigns_id_one_and_not_completed() {
    let mut repo = TodoRepositoryForMemory::new();
    let t = repo.creat(creat_payload("buy milk")).unwrap();
    assert_eq!(t.id, 1);
    assert_eq!(t.text, "buy milk");
    assert!(!t.completed);
}

#[test]
fn create_assigns_fresh_ids_without_deletions() {
    let mut repo = TodoRepositoryForMemory::new();
    let a = repo.creat(creat_payload("first")).unwrap();
    let b = repo.creat(creat_payload("second")).unwrap();
    let c = repo.creat(creat_payload("third")).unwrap();
    assert_eq!(a.id, 1);
    assert_eq!(b.id, 2);
    assert_eq!(c.id, 3);
    assert!(!a.completed && !b.completed && !c.completed);
}

#[test]
fn find_returns_the_created_entity() {
    let mut repo = TodoRepositoryForMemory::new();
    let created = repo.creat(creat_payload("buy milk")).unwrap();
    let found = repo.find(created.id).unwrap();
    assert!(found == created);
}

#[test]
fn find_on_empty_store_is_not_found() {
    let repo = TodoRepositoryForMemory::new();
    let e = repo.find(999).unwrap_err();
    assert!(matches!(e, RepositoryError::NotFound(999)));
}

#[test]
fn update_replaces_both_mutable_fields() {
    let mut repo = TodoRepositoryForMemory::new();
    repo.creat(creat_payload("a")).unwrap();
    let t = repo.update(1, update_payload("b", true)).unwrap();
    assert_eq!(t.id, 1);
    assert_eq!(t.text, "b");
    assert!(t.completed);
    let found = repo.find(1).unwrap();
    assert!(found == t);
}

#[test]
fn update_on_missing_id_is_not_found_whatever_the_payload() {
    let mut repo = TodoRepositoryForMemory::new();
    let e = repo.update(5, update_payload("fine text", false)).unwrap_err();
    assert!(matches!(e, RepositoryError::NotFound(5)));
    let e = repo.update(5, update_payload("", true)).unwrap_err();
    assert!(matches!(e, RepositoryError::NotFound(5)));
}

#[test]
fn delete_then_find_is_not_found() {
    let mut repo = TodoRepositoryForMemory::new();
    repo.creat(creat_payload("short lived")).unwrap();
    repo.delete(1).unwrap();
    let e = repo.find(1).unwrap_err();
    assert!(matches!(e, RepositoryError::NotFound(1)));
}

#[test]
fn delete_on_missing_id_is_not_found() {
    let mut repo = TodoRepositoryForMemory::new();
    let e = repo.delete(3).unwrap_err();
    assert!(matches!(e, RepositoryError::NotFound(3)));
}

#[test]
fn list_length_tracks_creates_minus_deletes() {
    let mut repo = TodoRepositoryForMemory::new();
    assert_eq!(repo.all().unwrap().len(), 0);
    repo.creat(creat_payload("one")).unwrap();
    repo.creat(creat_payload("two")).unwrap();
    repo.creat(creat_payload("three")).unwrap();
    assert_eq!(repo.all().unwrap().len(), 3);
    repo.delete(3).unwrap();
    assert_eq!(repo.all().unwrap().len(), 2);
    repo.delete(1).unwrap();
    assert_eq!(repo.all().unwrap().len(), 1);
}

#[test]
fn list_holds_each_stored_entity_once() {
    let mut repo = TodoRepositoryForMemory::new();
    let a = repo.creat(creat_payload("one")).unwrap();
    let b = repo.creat(creat_payload("two")).unwrap();
    let all = repo.all().unwrap();
    assert_eq!(all.len(), 2);
    assert!(all.iter().any(|t| *t == a));
    assert!(all.iter().any(|t| *t == b));
}

#[test]
fn id_reuse_after_delete_overwrites() {
    // The count-based id policy reuses ids once something was deleted:
    // the next create overwrites the entity holding that id.
    let mut repo = TodoRepositoryForMemory::new();
    repo.creat(creat_payload("one")).unwrap();
    repo.creat(creat_payload("two")).unwrap();
    repo.delete(1).unwrap();
    let c = repo.creat(creat_payload("three")).unwrap();
    assert_eq!(c.id, 2);
    assert_eq!(repo.all().unwrap().len(), 1);
    assert_eq!(repo.find(2).unwrap().text, "three");
}

#[test]
fn validation_boundaries_on_create_payload() {
    assert!(creat_payload("").validate().is_err());
    assert!(creat_payload(&"x".repeat(101)).validate().is_err());
    assert!(creat_payload("a").validate().is_ok());
    assert!(creat_payload(&"x".repeat(100)).validate().is_ok());
}

#[test]
fn validation_boundaries_on_update_payload() {
    assert!(update_payload("", false).validate().is_err());
    assert!(update_payload(&"x".repeat(101), true).validate().is_err());
    assert!(update_payload("a", true).validate().is_ok());
    assert!(update_payload(&"x".repeat(100), false).validate().is_ok());
}

#[test]
fn validation_counts_characters_not_bytes() {
    // one hundred two-byte characters: acceptable
    assert!(creat_payload(&"\u{00e9}".repeat(100)).validate().is_ok());
    assert!(creat_payload(&"\u{00e9}".repeat(101)).validate().is_err());
}

#[test]
fn rejected_create_reports_the_field_and_reason() {
    let e = creat_payload("").validate().unwrap_err();
    match e {
        RepositoryError::Validation { field, reason } => {
            assert_eq!(field, "text");
            assert_eq!(reason, "Can not be empty");
        }
        _ => panic!("expected a validation failure"),
    }
    let e = creat_payload(&"x".repeat(101)).validate().unwrap_err();
    match e {
        RepositoryError::Validation { field, reason } => {
            assert_eq!(field, "text");
            assert_eq!(reason, "Over text length");
        }
        _ => panic!("expected a validation failure"),
    }
}

#[test]
fn invalid_create_never_reaches_the_backend() {
    let mut repo = TodoRepositoryForMemory::new();
    let e = create_todo(&mut repo, creat_payload("")).unwrap_err();
    assert!(matches!(e, RepositoryError::Validation { .. }));
    assert_eq!(repo.all().unwrap().len(), 0);
}

#[test]
fn valid_create_through_the_boundary_is_stored() {
    let mut repo = TodoRepositoryForMemory::new();
    let t = create_todo(&mut repo, creat_payload("buy milk")).unwrap();
    assert_eq!(t.id, 1);
    assert!(!t.completed);
    assert_eq!(repo.all().unwrap().len(), 1);
}

#[test]
fn invalid_update_never_reaches_the_backend() {
    let mut repo = TodoRepositoryForMemory::new();
    let created = repo.creat(creat_payload("keep me")).unwrap();
    let e = update_todo(&mut repo, 1, update_payload("", true)).unwrap_err();
    assert!(matches!(e, RepositoryError::Validation { .. }));
    let found = repo.find(1).unwrap();
    assert!(found == created);
}

#[test]
fn valid_update_through_the_boundary_is_stored() {
    let mut repo = TodoRepositoryForMemory::new();
    repo.creat(creat_payload("a")).unwrap();
    let t = update_todo(&mut repo, 1, update_payload("b", true)).unwrap();
    assert_eq!(t.id, 1);
    assert_eq!(t.text, "b");
    assert!(t.completed);
}

#[test]
fn fetch_error_classification() {
    let e = classify_fetch_error(true, 42, "whatever".to_string());
    assert!(matches!(e, RepositoryError::NotFound(42)));
    let e = classify_fetch_error(false, 42, "connection reset".to_string());
    match e {
        RepositoryError::Unexpected(detail) => assert_eq!(detail, "connection reset"),
        _ => panic!("expected an unexpected-store failure"),
    }
}

#[test]
fn merged_update_keeps_id_and_takes_payload_fields() {
    let current = Todo::new(9, "old text".to_string());
    let t = merged_update(&current, update_payload("new text", true));
    assert_eq!(t.id, 9);
    assert_eq!(t.text, "new text");
    assert!(t.completed);
}

#[test]
fn delete_outcome_goes_by_rows_affected() {
    let e = delete_outcome(0, 8).unwrap_err();
    assert!(matches!(e, RepositoryError::NotFound(8)));
    assert!(delete_outcome(1, 8).is_ok());
    assert!(delete_outcome(3, 8).is_ok());
}
