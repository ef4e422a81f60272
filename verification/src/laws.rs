//! The properties that hold of every backend satisfying the repository
//! contract, stated and proved over the map model that the contract's
//! `ensures` clauses use.

use vstd::prelude::*;

use crate::repositories::Todo;

verus! {

/// The shape a store has after creations only: the ids held are exactly
/// `1..=count`, as the `count + 1` assignment policy produces them.
pub open spec fn ids_dense(m: Map<int, Todo>) -> bool {
    &&& m.dom().finite()
    &&& forall|k: int| #[trigger] m.contains_key(k) <==> 1 <= k <= m.dom().len()
}

/// In a backend lifetime without deletions the store stays dense, so the
/// id a create assigns — `count + 1` — was never used before: together
/// with `creat`'s own `ensures` (`completed == false`, id `count + 1`),
/// every create returns a fresh, not-completed entity.
pub proof fn lemma_fresh_id_without_deletions(m: Map<int, Todo>)
    requires
        ids_dense(m),
    ensures
        !m.contains_key(m.dom().len() + 1int),
{
}

/// A create keeps a dense store dense, so the previous law applies to the
/// whole lifetime as long as nothing is deleted.
pub proof fn lemma_create_preserves_density(m: Map<int, Todo>, t: Todo)
    requires
        ids_dense(m),
        t.id as int == m.dom().len() + 1,
    ensures
        ids_dense(m.insert(t.id as int, t)),
{
    lemma_fresh_id_without_deletions(m);
    assert(m.insert(t.id as int, t).dom() =~= m.dom().insert(t.id as int));
}

/// Finding the id a create returned yields the very entity the create
/// returned: a create ends with the store `m.insert(t.id, t)`, and a find
/// on that store at `t.id` is owed exactly `t`.
pub proof fn lemma_create_find_round_trip(m: Map<int, Todo>, t: Todo)
    ensures
        m.insert(t.id as int, t).contains_key(t.id as int),
        m.insert(t.id as int, t)[t.id as int] == t,
{
}

/// A find that follows a delete of the same id is owed `NotFound`: a
/// successful delete ends with the store `m.remove(id)`, which no longer
/// holds the id.
pub proof fn lemma_delete_then_find(m: Map<int, Todo>, id: int)
    ensures
        !m.remove(id).contains_key(id),
{
}

/// One repository call that changes the store, as the contract models it.
pub enum RepoOp {
    Creat(Todo),
    Delete(i32),
}

/// The store a single call leaves behind: a create inserts the entity
/// under its id; a delete removes the id when it is held and otherwise
/// fails and leaves the store as it was.
pub open spec fn apply_op(m: Map<int, Todo>, op: RepoOp) -> Map<int, Todo> {
    match op {
        RepoOp::Creat(t) => m.insert(t.id as int, t),
        RepoOp::Delete(id) => if m.contains_key(id as int) {
            m.remove(id as int)
        } else {
            m
        },
    }
}

/// The store a whole call sequence leaves behind.
pub open spec fn apply_ops(m: Map<int, Todo>, ops: Seq<RepoOp>) -> Map<int, Todo>
    decreases ops.len(),
{
    if ops.len() == 0 {
        m
    } else {
        apply_op(apply_ops(m, ops.drop_last()), ops.last())
    }
}

/// Every call of the sequence succeeds and no create reuses a held id:
/// each delete hits a held id, and each create's assigned id is free at
/// the moment of the call (after a deletion the `count + 1` policy can
/// assign a held id again; such a create overwrites and falls outside this
/// condition).
pub open spec fn ops_all_fresh(m: Map<int, Todo>, ops: Seq<RepoOp>) -> bool
    decreases ops.len(),
{
    if ops.len() == 0 {
        true
    } else {
        ops_all_fresh(m, ops.drop_last()) && match ops.last() {
            RepoOp::Creat(t) => !apply_ops(m, ops.drop_last()).contains_key(t.id as int),
            RepoOp::Delete(id) => apply_ops(m, ops.drop_last()).contains_key(id as int),
        }
    }
}

/// How many of the calls are creates.
pub open spec fn count_creates(ops: Seq<RepoOp>) -> int
    decreases ops.len(),
{
    if ops.len() == 0 {
        0
    } else {
        count_creates(ops.drop_last()) + if ops.last() is Creat {
            1int
        } else {
            0int
        }
    }
}

/// How many of the calls are deletes.
pub open spec fn count_deletes(ops: Seq<RepoOp>) -> int
    decreases ops.len(),
{
    if ops.len() == 0 {
        0
    } else {
        count_deletes(ops.drop_last()) + if ops.last() is Delete {
            1int
        } else {
            0int
        }
    }
}

/// After any sequence of successful, non-id-reusing creates and successful
/// deletes, the store holds `creates - deletes` more entities than before:
/// with `all`'s `ensures` (the listing's length equals the store's size),
/// the listing is exactly that much longer.
pub proof fn lemma_list_length_tracks_creates_and_deletes(m: Map<int, Todo>, ops: Seq<RepoOp>)
    requires
        m.dom().finite(),
        ops_all_fresh(m, ops),
    ensures
        apply_ops(m, ops).dom().finite(),
        apply_ops(m, ops).dom().len() == m.dom().len() + count_creates(ops) - count_deletes(ops),
    decreases ops.len(),
{
    if ops.len() > 0 {
        lemma_list_length_tracks_creates_and_deletes(m, ops.drop_last());
        let before = apply_ops(m, ops.drop_last());
        match ops.last() {
            RepoOp::Creat(t) => {
                assert(apply_ops(m, ops).dom() =~= before.dom().insert(t.id as int));
            },
            RepoOp::Delete(id) => {
                assert(apply_ops(m, ops).dom() =~= before.dom().remove(id as int));
            },
        }
    }
}

} // verus!
