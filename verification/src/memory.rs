//! The in-memory backend: a vector of entities with pairwise-distinct ids,
//! viewed as a finite map from id to entity.

use vstd::prelude::*;
use vstd::pervasive::VecAdditionalExecFns;

use crate::repositories::{CreatTodo, RepositoryError, Todo, TodoRepository, UpdateTodo};

verus! {

/// The map a backend's stored sequence denotes: each entity under its id,
/// later entries winning (the sequences kept by the backend never hold two
/// entries with one id, so nothing is ever shadowed).
pub open spec fn map_of(s: Seq<Todo>) -> Map<int, Todo>
    decreases s.len(),
{
    if s.len() == 0 {
        Map::empty()
    } else {
        map_of(s.drop_last()).insert(s.last().id as int, s.last())
    }
}

/// No two entries of the sequence carry the same id.
pub open spec fn unique_ids(s: Seq<Todo>) -> bool {
    forall|i: int, j: int| 0 <= i < j < s.len() ==> s[i].id != s[j].id
}

/// Distinctness of ids survives dropping the last entry.
pub proof fn lemma_unique_drop_last(s: Seq<Todo>)
    requires
        unique_ids(s),
        s.len() > 0,
    ensures
        unique_ids(s.drop_last()),
{
    assert forall|i: int, j: int| 0 <= i < j < s.drop_last().len() implies s.drop_last()[i].id
        != s.drop_last()[j].id by {
        assert(s.drop_last()[i] == s[i]);
        assert(s.drop_last()[j] == s[j]);
    }
}

/// An id is a key of the denoted map exactly when some entry carries it.
pub proof fn lemma_map_of_contains(s: Seq<Todo>, id: int)
    ensures
        map_of(s).contains_key(id) <==> exists|i: int| 0 <= i < s.len() && (#[trigger] s[i]).id
            == id,
    decreases s.len(),
{
    if s.len() > 0 {
        lemma_map_of_contains(s.drop_last(), id);
        if s.last().id == id {
            assert((s[s.len() - 1]).id == id);
        }
        if exists|i: int| 0 <= i < s.len() && (#[trigger] s[i]).id == id {
            let i = choose|i: int| 0 <= i < s.len() && (#[trigger] s[i]).id == id;
            if i < s.len() - 1 {
                assert((s.drop_last()[i]).id == id);
            }
        }
    }
}

/// Under distinct ids, the denoted map sends each entry's id to that entry.
pub proof fn lemma_map_of_index(s: Seq<Todo>, i: int)
    requires
        unique_ids(s),
        0 <= i < s.len(),
    ensures
        map_of(s).contains_key(s[i].id as int),
        map_of(s)[s[i].id as int] == s[i],
    decreases s.len(),
{
    if i == s.len() - 1 {
        assert(s.last() == s[i]);
    } else {
        lemma_unique_drop_last(s);
        assert(s.drop_last()[i] == s[i]);
        lemma_map_of_index(s.drop_last(), i);
        assert(s.last().id != s[i].id);
    }
}

/// Under distinct ids, the denoted map has exactly one key per entry.
pub proof fn lemma_map_of_len(s: Seq<Todo>)
    requires
        unique_ids(s),
    ensures
        map_of(s).dom().finite(),
        map_of(s).dom().len() == s.len(),
    decreases s.len(),
{
    if s.len() == 0 {
        assert(map_of(s).dom() =~= Set::<int>::empty());
    } else {
        lemma_unique_drop_last(s);
        lemma_map_of_len(s.drop_last());
        lemma_map_of_contains(s.drop_last(), s.last().id as int);
        if map_of(s.drop_last()).contains_key(s.last().id as int) {
            let i = choose|i: int|
                0 <= i < s.drop_last().len() && (#[trigger] s.drop_last()[i]).id
                    == s.last().id as int;
            assert(s[i] == s.drop_last()[i]);
            assert(s[i].id == s[s.len() - 1].id);
            assert(false);
        }
        assert(map_of(s).dom() =~= map_of(s.drop_last()).dom().insert(s.last().id as int));
    }
}

/// Appending an entry denotes inserting it under its id.
pub proof fn lemma_map_of_push(s: Seq<Todo>, t: Todo)
    ensures
        map_of(s.push(t)) == map_of(s).insert(t.id as int, t),
{
    assert(s.push(t).drop_last() =~= s);
    assert(s.push(t).last() == t);
}

/// Replacing the entry that carries an id denotes inserting the new entry
/// under that same id.
pub proof fn lemma_map_of_update(s: Seq<Todo>, i: int, t: Todo)
    requires
        unique_ids(s),
        0 <= i < s.len(),
        t.id == s[i].id,
    ensures
        map_of(s.update(i, t)) == map_of(s).insert(t.id as int, t),
    decreases s.len(),
{
    let s2 = s.update(i, t);
    if i == s.len() - 1 {
        assert(s2.drop_last() =~= s.drop_last());
        assert(s2.last() == t);
        assert(map_of(s2) =~= map_of(s).insert(t.id as int, t));
    } else {
        lemma_unique_drop_last(s);
        assert(s2.drop_last() =~= s.drop_last().update(i, t));
        assert(s2.last() == s.last());
        assert(s.drop_last()[i] == s[i]);
        lemma_map_of_update(s.drop_last(), i, t);
        assert(s[i].id != s.last().id);
        assert(map_of(s2) =~= map_of(s).insert(t.id as int, t));
    }
}

/// Taking out the entry that carries an id denotes removing that id.
pub proof fn lemma_map_of_remove(s: Seq<Todo>, i: int)
    requires
        unique_ids(s),
        0 <= i < s.len(),
    ensures
        map_of(s.remove(i)) == map_of(s).remove(s[i].id as int),
    decreases s.len(),
{
    let s2 = s.remove(i);
    lemma_unique_drop_last(s);
    if i == s.len() - 1 {
        assert(s2 =~= s.drop_last());
        lemma_map_of_contains(s.drop_last(), s[i].id as int);
        if map_of(s.drop_last()).contains_key(s[i].id as int) {
            let j = choose|j: int|
                0 <= j < s.drop_last().len() && (#[trigger] s.drop_last()[j]).id
                    == s[i].id as int;
            assert(s[j] == s.drop_last()[j]);
            assert(false);
        }
        assert(map_of(s2) =~= map_of(s).remove(s[i].id as int));
    } else {
        assert(s2.drop_last() =~= s.drop_last().remove(i));
        assert(s2.last() == s.last());
        assert(s.drop_last()[i] == s[i]);
        lemma_map_of_remove(s.drop_last(), i);
        assert(s[i].id != s.last().id);
        assert(map_of(s2) =~= map_of(s).remove(s[i].id as int));
    }
}

/// A concurrency-free, single-owner store. The surrounding service wraps
/// one instance in its own synchronization (a single reader/writer lock);
/// every access then goes through the five interface operations.
pub struct TodoRepositoryForMemory {
    store: Vec<Todo>,
}

impl TodoRepositoryForMemory {
    /// An empty store.
    pub fn new() -> (r: TodoRepositoryForMemory)
        ensures
            r.inv(),
            r.todos() == Map::<int, Todo>::empty(),
    {
        TodoRepositoryForMemory { store: Vec::new() }
    }

    /// The position of the entity carrying `id`, if any.
    fn index_of(&self, id: i32) -> (r: Option<usize>)
        ensures
            match r {
                Some(i) => i < self.store@.len() && self.store@[i as int].id == id,
                None => forall|j: int| 0 <= j < self.store@.len() ==> (#[trigger] self.store@[j]).id
                    != id,
            },
    {
        let n = self.store.len();
        let mut i: usize = 0;
        while i < n
            invariant
                n == self.store@.len(),
                i <= n,
                forall|j: int| 0 <= j < i ==> (#[trigger] self.store@[j]).id != id,
            decreases n - i,
        {
            if self.store[i].id == id {
                return Some(i);
            }
            i = i + 1;
        }
        None
    }
}

impl TodoRepository for TodoRepositoryForMemory {
    closed spec fn todos(&self) -> Map<int, Todo> {
        map_of(self.store@)
    }

    closed spec fn inv(&self) -> bool {
        unique_ids(self.store@)
    }

    /// Assigns `current count + 1` as the id. Within a backend lifetime
    /// without deletions that id is fresh; after deletions it can coincide
    /// with a stored one, and the new entity then replaces the old — the
    /// id-reuse risk of the count-based policy, kept as designed. Fails
    /// (with the store unchanged) only when the count would leave `i32`.
    fn creat(&mut self, payload: CreatTodo) -> (r: Result<Todo, RepositoryError>)
        ensures
            r is Ok <==> old(self).todos().dom().len() + 1 <= i32::MAX,
            r matches Ok(t) ==> t.id as int == old(self).todos().dom().len() + 1,
    {
        proof {
            lemma_map_of_len(self.store@);
        }
        if self.store.len() >= 0x7fff_ffff {
            return Err(RepositoryError::Unexpected(String::from_str("todo store is full")));
        }
        let id = (self.store.len() + 1) as i32;
        let todo = Todo { id, text: payload.text, completed: false };
        let copy = todo.clone();
        let ghost s = self.store@;
        match self.index_of(id) {
            Some(i) => {
                self.store.set(i, todo);
                proof {
                    lemma_map_of_update(s, i as int, self.store@[i as int]);
                    assert forall|x: int, y: int|
                        0 <= x < y < self.store@.len() implies self.store@[x].id
                        != self.store@[y].id by {
                        assert(s[x].id != s[y].id);
                    }
                }
            },
            None => {
                self.store.push(todo);
                proof {
                    lemma_map_of_push(s, self.store@[s.len() as int]);
                    assert forall|x: int, y: int|
                        0 <= x < y < self.store@.len() implies self.store@[x].id
                        != self.store@[y].id by {
                        if y < s.len() {
                            assert(s[x].id != s[y].id);
                        }
                    }
                }
            },
        }
        Ok(copy)
    }

    fn find(&self, id: i32) -> (r: Result<Todo, RepositoryError>)
        ensures
            r is Ok <==> self.todos().contains_key(id as int),
            r is Err ==> (r matches Err(RepositoryError::NotFound(missing)) && missing == id),
    {
        proof {
            lemma_map_of_contains(self.store@, id as int);
        }
        match self.index_of(id) {
            Some(i) => {
                proof {
                    lemma_map_of_index(self.store@, i as int);
                }
                Ok(self.store[i].clone())
            },
            None => Err(RepositoryError::NotFound(id)),
        }
    }

    /// Lists the entities in insertion order (the store's own policy; the
    /// interface promises no order).
    fn all(&self) -> (r: Result<Vec<Todo>, RepositoryError>)
        ensures
            r is Ok,
    {
        let n = self.store.len();
        let mut v: Vec<Todo> = Vec::new();
        let mut i: usize = 0;
        while i < n
            invariant
                n == self.store@.len(),
                i <= n,
                v@.len() == i,
                forall|j: int| 0 <= j < i ==> v@[j] == self.store@[j],
            decreases n - i,
        {
            v.push(self.store[i].clone());
            i = i + 1;
        }
        proof {
            assert(v@ =~= self.store@);
            lemma_map_of_len(self.store@);
            assert forall|j: int| 0 <= j < v@.len() implies self.todos().contains_key(
                (#[trigger] v@[j]).id as int,
            ) && self.todos()[v@[j].id as int] == v@[j] by {
                lemma_map_of_index(self.store@, j);
            }
            assert forall|k: int| #[trigger]
                self.todos().contains_key(k) implies exists|j: int|
                0 <= j < v@.len() && (#[trigger] v@[j]).id as int == k by {
                lemma_map_of_contains(self.store@, k);
                let j = choose|j: int| 0 <= j < self.store@.len() && (#[trigger] self.store@[j]).id
                    == k;
                assert((v@[j]).id as int == k);
            }
        }
        Ok(v)
    }

    /// Read-modify-write under the single owner, so atomic with respect to
    /// every other operation on this store. The payload replaces both
    /// mutable fields unconditionally: the one documented rule.
    fn update(&mut self, id: i32, payload: UpdateTodo) -> (r: Result<Todo, RepositoryError>)
        ensures
            r is Ok <==> old(self).todos().contains_key(id as int),
            r is Err ==> (r matches Err(RepositoryError::NotFound(missing)) && missing == id),
    {
        proof {
            lemma_map_of_contains(self.store@, id as int);
        }
        match self.index_of(id) {
            Some(i) => {
                let todo = Todo { id, text: payload.text, completed: payload.completed };
                let copy = todo.clone();
                let ghost s = self.store@;
                proof {
                    lemma_map_of_index(s, i as int);
                }
                self.store.set(i, todo);
                proof {
                    lemma_map_of_update(s, i as int, self.store@[i as int]);
                    assert forall|x: int, y: int|
                        0 <= x < y < self.store@.len() implies self.store@[x].id
                        != self.store@[y].id by {
                        assert(s[x].id != s[y].id);
                    }
                }
                Ok(copy)
            },
            None => Err(RepositoryError::NotFound(id)),
        }
    }

    fn delete(&mut self, id: i32) -> (r: Result<(), RepositoryError>)
        ensures
            r is Ok <==> old(self).todos().contains_key(id as int),
            r is Err ==> (r matches Err(RepositoryError::NotFound(missing)) && missing == id),
    {
        proof {
            lemma_map_of_contains(self.store@, id as int);
        }
        match self.index_of(id) {
            Some(i) => {
                let ghost s = self.store@;
                self.store.remove(i);
                proof {
                    lemma_map_of_remove(s, i as int);
                    assert forall|x: int, y: int|
                        0 <= x < y < self.store@.len() implies self.store@[x].id
                        != self.store@[y].id by {
                        if y < i {
                            assert(s[x].id != s[y].id);
                        } else if x < i {
                            assert(s[x].id != s[y + 1].id);
                        } else {
                            assert(s[x + 1].id != s[y + 1].id);
                        }
                    }
                }
                Ok(())
            },
            None => Err(RepositoryError::NotFound(id)),
        }
    }
}

} // verus!
