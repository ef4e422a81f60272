//! The entity model, payload validation, the repository capability trait,
//! and the in-memory backend.

use vstd::prelude::*;

verus! {

/// A single task. The backend that stores it assigns `id`; `text` is the
/// task description; `completed` starts out `false`.
#[derive(Debug)]
pub struct Todo {
    pub id: i32,
    pub text: String,
    pub completed: bool,
}

/// Payload for creating a task: just the description.
#[derive(Debug)]
pub struct CreatTodo {
    pub text: String,
}

/// Payload for replacing the mutable fields of an existing task.
#[derive(Debug)]
pub struct UpdateTodo {
    pub text: String,
    pub completed: bool,
}

/// The failures a repository operation can surface.
#[derive(Debug)]
pub enum RepositoryError {
    /// A payload field was rejected before any backend was invoked.
    Validation { field: String, reason: String },
    /// No entity with the requested id exists in the backend.
    NotFound(i32),
    /// Any lower-level failure not classified as `NotFound`.
    Unexpected(String),
}

/// A description is acceptable when it has between 1 and 100 characters.
pub open spec fn valid_text(text: Seq<char>) -> bool {
    1 <= text.len() <= 100
}

impl Todo {
    /// A freshly created task is never completed.
    pub fn new(id: i32, text: String) -> (t: Todo)
        ensures
            t.id == id,
            t.text == text,
            !t.completed,
    {
        Todo { id, text, completed: false }
    }
}

impl Clone for Todo {
    fn clone(&self) -> (t: Todo)
        ensures
            t == *self,
    {
        let t = Todo { id: self.id, text: self.text.clone(), completed: self.completed };
        proof {
            assert(t == *self);
        }
        t
    }
}

impl PartialEq for Todo {
    fn eq(&self, other: &Todo) -> (r: bool) {
        self.id == other.id && self.text == other.text && self.completed == other.completed
    }
}

impl vstd::std_specs::cmp::PartialEqSpecImpl for Todo {
    open spec fn obeys_eq_spec() -> bool {
        true
    }

    open spec fn eq_spec(&self, other: &Todo) -> bool {
        self.id == other.id && self.text@ == other.text@ && self.completed == other.completed
    }
}

impl CreatTodo {
    /// Accepts the payload exactly when its text has 1 to 100 characters;
    /// rejected payloads never reach a backend.
    pub fn validate(&self) -> (r: Result<(), RepositoryError>)
        ensures
            r is Ok <==> valid_text(self.text@),
            r matches Err(e) ==> (e matches RepositoryError::Validation { field, reason }
                && field@ == "text"@ && (self.text@.len() == 0 ==> reason@ == "Can not be empty"@)
                && (self.text@.len() > 100 ==> reason@ == "Over text length"@)),
    {
        validate_text(&self.text)
    }
}

impl UpdateTodo {
    /// Accepts the payload exactly when its text has 1 to 100 characters;
    /// rejected payloads never reach a backend.
    pub fn validate(&self) -> (r: Result<(), RepositoryError>)
        ensures
            r is Ok <==> valid_text(self.text@),
            r matches Err(e) ==> (e matches RepositoryError::Validation { field, reason }
                && field@ == "text"@ && (self.text@.len() == 0 ==> reason@ == "Can not be empty"@)
                && (self.text@.len() > 100 ==> reason@ == "Over text length"@)),
    {
        validate_text(&self.text)
    }
}

/// The capability contract that every storage backend satisfies. A backend
/// is modelled as a finite map from id to the entity stored under it;
/// `inv` is the backend's own well-formedness condition, which every
/// operation preserves. Reads never mutate state; a failed operation leaves
/// the store as it was. `Unexpected` stands for lower-level failures
/// (driver, I/O) that a backend other than the in-memory one may surface
/// on any operation.
pub trait TodoRepository: Sized {
    spec fn todos(&self) -> Map<int, Todo>;

    spec fn inv(&self) -> bool;

    /// Stores a new entity built from the payload under a backend-assigned
    /// id, not completed, and returns a copy of it.
    fn creat(&mut self, payload: CreatTodo) -> (r: Result<Todo, RepositoryError>)
        requires
            old(self).inv(),
        ensures
            final(self).inv(),
            match r {
                Ok(t) => !t.completed && t.text == payload.text && final(self).todos()
                    == old(self).todos().insert(t.id as int, t),
                Err(e) => (e matches RepositoryError::Unexpected(_)) && final(self).todos()
                    == old(self).todos(),
            },
    ;

    /// Returns a copy of the entity stored under `id`, or `NotFound(id)`
    /// when there is none.
    fn find(&self, id: i32) -> (r: Result<Todo, RepositoryError>)
        requires
            self.inv(),
        ensures
            match r {
                Ok(t) => self.todos().contains_key(id as int) && t == self.todos()[id as int],
                Err(RepositoryError::NotFound(missing)) => missing == id && !self.todos()
                    .contains_key(id as int),
                Err(RepositoryError::Unexpected(_)) => true,
                Err(RepositoryError::Validation { .. }) => false,
            },
    ;

    /// Returns a copy of every stored entity, each exactly once; the order
    /// is the backend's own.
    fn all(&self) -> (r: Result<Vec<Todo>, RepositoryError>)
        requires
            self.inv(),
        ensures
            match r {
                Ok(v) => v@.len() == self.todos().dom().len() && (forall|i: int|
                    0 <= i < v@.len() ==> self.todos().contains_key(
                        (#[trigger] v@[i]).id as int,
                    ) && self.todos()[v@[i].id as int] == v@[i]) && (forall|k: int|
                    #[trigger] self.todos().contains_key(k) ==> exists|i: int|
                        0 <= i < v@.len() && (#[trigger] v@[i]).id as int == k),
                Err(e) => (e matches RepositoryError::Unexpected(_)),
            },
    ;

    /// Replaces the mutable fields of the entity stored under `id` with the
    /// payload's and returns the new state, or fails with `NotFound(id)`
    /// when there is none, whatever the payload holds.
    fn update(&mut self, id: i32, payload: UpdateTodo) -> (r: Result<Todo, RepositoryError>)
        requires
            old(self).inv(),
        ensures
            final(self).inv(),
            !old(self).todos().contains_key(id as int) ==> r is Err,
            match r {
                Ok(t) => old(self).todos().contains_key(id as int) && t.id == id && t.text
                    == payload.text && t.completed == payload.completed && final(self).todos()
                    == old(self).todos().insert(id as int, t),
                Err(RepositoryError::NotFound(missing)) => missing == id && !old(self).todos()
                    .contains_key(id as int) && final(self).todos() == old(self).todos(),
                Err(RepositoryError::Unexpected(_)) => final(self).todos() == old(self).todos(),
                Err(RepositoryError::Validation { .. }) => false,
            },
    ;

    /// Removes the entity stored under `id` permanently, or fails with
    /// `NotFound(id)` when there is none.
    fn delete(&mut self, id: i32) -> (r: Result<(), RepositoryError>)
        requires
            old(self).inv(),
        ensures
            final(self).inv(),
            !old(self).todos().contains_key(id as int) ==> r is Err,
            match r {
                Ok(()) => old(self).todos().contains_key(id as int) && final(self).todos()
                    == old(self).todos().remove(id as int),
                Err(RepositoryError::NotFound(missing)) => missing == id && !old(self).todos()
                    .contains_key(id as int) && final(self).todos() == old(self).todos(),
                Err(RepositoryError::Unexpected(_)) => final(self).todos() == old(self).todos(),
                Err(RepositoryError::Validation { .. }) => false,
            },
    ;
}

/// The one field rule both payload shapes share: text must be non-empty and
/// at most 100 characters.
fn validate_text(text: &String) -> (r: Result<(), RepositoryError>)
    ensures
        r is Ok <==> valid_text(text@),
        r matches Err(e) ==> (e matches RepositoryError::Validation { field, reason }
            && field@ == "text"@ && (text@.len() == 0 ==> reason@ == "Can not be empty"@)
            && (text@.len() > 100 ==> reason@ == "Over text length"@)),
{
    let len = text.as_str().unicode_len();
    if len == 0 {
        Err(RepositoryError::Validation {
            field: String::from_str("text"),
            reason: String::from_str("Can not be empty"),
        })
    } else if len > 100 {
        Err(RepositoryError::Validation {
            field: String::from_str("text"),
            reason: String::from_str("Over text length"),
        })
    } else {
        Ok(())
    }
}

} // verus!
