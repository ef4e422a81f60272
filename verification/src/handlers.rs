//! The boundary in front of any backend: payloads are validated here, and a
//! rejected payload never reaches the repository.

use vstd::prelude::*;

use crate::repositories::{
    valid_text, CreatTodo, RepositoryError, Todo, TodoRepository, UpdateTodo,
};

verus! {

/// Validates the payload, then creates the entity; on an invalid payload
/// the backend is never invoked and the store is left untouched.
pub fn create_todo<T: TodoRepository>(repository: &mut T, payload: CreatTodo) -> (r: Result<
    Todo,
    RepositoryError,
>)
    requires
        old(repository).inv(),
    ensures
        final(repository).inv(),
        !valid_text(payload.text@) ==> (r matches Err(e) && (e matches RepositoryError::Validation {
            ..
        })) && final(repository).todos() == old(repository).todos(),
        valid_text(payload.text@) ==> match r {
            Ok(t) => !t.completed && t.text == payload.text && final(repository).todos()
                == old(repository).todos().insert(t.id as int, t),
            Err(e) => (e matches RepositoryError::Unexpected(_)) && final(repository).todos()
                == old(repository).todos(),
        },
{
    match payload.validate() {
        Ok(()) => repository.creat(payload),
        Err(e) => Err(e),
    }
}

/// Validates the payload, then replaces the entity stored under `id`; on an
/// invalid payload the backend is never invoked and the store is left
/// untouched.
pub fn update_todo<T: TodoRepository>(
    repository: &mut T,
    id: i32,
    payload: UpdateTodo,
) -> (r: Result<Todo, RepositoryError>)
    requires
        old(repository).inv(),
    ensures
        final(repository).inv(),
        !valid_text(payload.text@) ==> (r matches Err(e) && (e matches RepositoryError::Validation {
            ..
        })) && final(repository).todos() == old(repository).todos(),
        valid_text(payload.text@) ==> match r {
            Ok(t) => old(repository).todos().contains_key(id as int) && t.id == id && t.text
                == payload.text && t.completed == payload.completed && final(repository).todos()
                == old(repository).todos().insert(id as int, t),
            Err(RepositoryError::NotFound(missing)) => missing == id && !old(repository).todos()
                .contains_key(id as int) && final(repository).todos() == old(repository).todos(),
            Err(RepositoryError::Unexpected(_)) => final(repository).todos() == old(
                repository,
            ).todos(),
            Err(RepositoryError::Validation { .. }) => false,
        },
{
    match payload.validate() {
        Ok(()) => repository.update(id, payload),
        Err(e) => Err(e),
    }
}

} // verus!
