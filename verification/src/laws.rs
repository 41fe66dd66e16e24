//! Laws of the collection's operations, stated over the spec-level
//! transitions that the executable operations are proved to follow.

use vstd::prelude::*;
use crate::collection::{create_t, delete_t, new_entry, toggle_t};
use crate::todo::TodoView;

verus! {

/// Deleting an id is idempotent: the second delete of the same id changes
/// nothing, and (by `TodoList::delete`'s contract) both deletes answer 200.
pub proof fn lemma_delete_idempotent(m: Map<Seq<char>, TodoView>, id: Seq<char>)
    ensures
        delete_t(delete_t(m, id), id) == delete_t(m, id),
{
    assert(delete_t(delete_t(m, id), id) =~= delete_t(m, id));
}

/// Toggling is an involution: toggling an id twice restores the collection,
/// and toggling a present id once flips exactly its `completed` flag.
pub proof fn lemma_toggle_involution(m: Map<Seq<char>, TodoView>, id: Seq<char>)
    ensures
        toggle_t(toggle_t(m, id), id) == m,
        m.contains_key(id) ==> toggle_t(m, id)[id] == m[id].flipped(),
        m.contains_key(id) ==> toggle_t(m, id)[id].completed == !m[id].completed,
        forall|k: Seq<char>| k != id && m.contains_key(k) ==> toggle_t(m, id).contains_key(k)
            && #[trigger] toggle_t(m, id)[k] == m[k],
{
    if m.contains_key(id) {
        assert(m[id].flipped().flipped() =~= m[id]);
        assert(toggle_t(toggle_t(m, id), id) =~= m);
    }
}

/// Toggling a missing id changes nothing; `TodoList::toggle`'s contract adds
/// that such a call answers 500, never a success.
pub proof fn lemma_toggle_missing(m: Map<Seq<char>, TodoView>, id: Seq<char>)
    requires
        !m.contains_key(id),
    ensures
        toggle_t(m, id) == m,
{
}

/// Round trip: after creating an entry, the collection holds it under the
/// returned id, with the given task, `completed` false; when the id was
/// fresh, the collection grew by exactly one entry.
pub proof fn lemma_create_round_trip(
    m: Map<Seq<char>, TodoView>,
    id: Seq<char>,
    task: Seq<char>,
    created_at: int,
)
    ensures
        create_t(m, id, task, created_at).contains_key(id),
        create_t(m, id, task, created_at)[id] == new_entry(id, task, created_at),
        create_t(m, id, task, created_at)[id].task == task,
        !create_t(m, id, task, created_at)[id].completed,
        m.dom().finite() && !m.contains_key(id) ==> create_t(m, id, task, created_at).len() == m.len()
            + 1,
{
    if m.dom().finite() && !m.contains_key(id) {
        assert(create_t(m, id, task, created_at).dom() =~= m.dom().insert(id));
    }
}

/// One creation request: an id, a task, and a timestamp.
#[verifier::ext_equal]
pub ghost struct CreateReq {
    pub id: Seq<char>,
    pub task: Seq<char>,
    pub created_at: int,
}

/// A batch of creations applied in order.
pub open spec fn create_all(m: Map<Seq<char>, TodoView>, reqs: Seq<CreateReq>) -> Map<
    Seq<char>,
    TodoView,
>
    decreases reqs.len(),
{
    if reqs.len() == 0 {
        m
    } else {
        create_t(
            create_all(m, reqs.drop_last()),
            reqs.last().id,
            reqs.last().task,
            reqs.last().created_at,
        )
    }
}

/// Uniqueness: creating a batch of entries under pairwise-distinct fresh ids
/// yields one entry per request — the collection grows by exactly the number
/// of requests, and each requested id is present with its own task.
pub proof fn lemma_create_all_distinct(m: Map<Seq<char>, TodoView>, reqs: Seq<CreateReq>)
    requires
        m.dom().finite(),
        forall|i: int, j: int| 0 <= i < j < reqs.len() ==> reqs[i].id != reqs[j].id,
        forall|i: int| 0 <= i < reqs.len() ==> !m.contains_key(reqs[i].id),
    ensures
        create_all(m, reqs).dom().finite(),
        create_all(m, reqs).len() == m.len() + reqs.len(),
        forall|k: Seq<char>| #[trigger] create_all(m, reqs).contains_key(k) <==> m.contains_key(k)
            || exists|i: int| 0 <= i < reqs.len() && reqs[i].id == k,
        forall|i: int| 0 <= i < reqs.len() ==> create_all(m, reqs).contains_key(reqs[i].id)
            && #[trigger] create_all(m, reqs)[reqs[i].id].task == reqs[i].task,
    decreases reqs.len(),
{
    if reqs.len() > 0 {
        let dl = reqs.drop_last();
        let prev = create_all(m, dl);
        let last = reqs.last();
        assert(forall|i: int| 0 <= i < dl.len() ==> dl[i] == reqs[i]);
        lemma_create_all_distinct(m, dl);
        assert(!(exists|i: int| 0 <= i < dl.len() && dl[i].id == last.id));
        assert(!prev.contains_key(last.id));
        assert(create_all(m, reqs).dom() =~= prev.dom().insert(last.id));
        assert forall|i: int| 0 <= i < reqs.len() implies create_all(m, reqs).contains_key(
            reqs[i].id,
        ) && #[trigger] create_all(m, reqs)[reqs[i].id].task == reqs[i].task by {
            if i < reqs.len() - 1 {
                assert(prev[reqs[i].id].task == reqs[i].task);
                assert(reqs[i].id != last.id);
            }
        }
    }
}

} // verus!
