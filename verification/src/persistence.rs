//! The rules a relational-store-backed backend follows. The driver calls
//! themselves (parameterized queries over a pooled connection) live with
//! the surrounding service; the decisions on what the driver reported —
//! how a failed lookup is classified, what an update writes back, when a
//! delete counts as `NotFound` — are made here.

use vstd::prelude::*;

use crate::repositories::{RepositoryError, Todo, UpdateTodo};

verus! {

/// Classifies a failed point lookup: the driver's "no row" outcome means
/// the id is absent and becomes `NotFound(id)`; every other driver failure
/// becomes `Unexpected` carrying the driver's message.
pub fn classify_fetch_error(row_not_found: bool, id: i32, detail: String) -> (e: RepositoryError)
    ensures
        row_not_found ==> (e matches RepositoryError::NotFound(missing) && missing == id),
        !row_not_found ==> (e matches RepositoryError::Unexpected(d) && d == detail),
{
    if row_not_found {
        RepositoryError::NotFound(id)
    } else {
        RepositoryError::Unexpected(detail)
    }
}

/// The row an update writes back once the prior lookup has succeeded: the
/// entity keeps its id and takes both mutable fields from the payload
/// unconditionally — the one documented rule.
pub fn merged_update(current: &Todo, payload: UpdateTodo) -> (t: Todo)
    ensures
        t.id == current.id,
        t.text == payload.text,
        t.completed == payload.completed,
{
    Todo { id: current.id, text: payload.text, completed: payload.completed }
}

/// A delete statement that touched no row found nothing to remove: that is
/// the same `NotFound(id)` as a failed lookup; touching at least one row is
/// success.
pub fn delete_outcome(rows_affected: u64, id: i32) -> (r: Result<(), RepositoryError>)
    ensures
        r is Ok <==> rows_affected > 0,
        r is Err ==> (r matches Err(RepositoryError::NotFound(missing)) && missing == id),
{
    if rows_affected == 0 {
        Err(RepositoryError::NotFound(id))
    } else {
        Ok(())
    }
}

} // verus!
