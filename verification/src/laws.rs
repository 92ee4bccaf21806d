use vstd::prelude::*;

use crate::TodoView;
use crate::store::create_model;
use crate::store::delete_model;
use crate::store::distinct_ids;
use crate::store::has_id;
use crate::store::idx_of;
use crate::store::lookup;
use crate::store::update_model;

verus! {

/// Round-trip: creating a record with a fresh id and task `task` yields a
/// store in which that id resolves to a record with the same task and
/// `completed == false`.
pub proof fn lemma_create_round_trip(s: Seq<TodoView>, id: Seq<char>, task: Seq<char>)
    requires
        distinct_ids(s),
        !has_id(s, id),
    ensures
        ({
            let s2 = create_model(s, id, task);
            &&& distinct_ids(s2)
            &&& has_id(s2, id)
            &&& lookup(s2, id) == (TodoView { id, task, completed: false })
        }),
{
    let s2 = create_model(s, id, task);
    assert(s2[s.len() as int].id == id);
    assert forall|i: int, j: int| 0 <= i < j < s2.len() implies s2[i].id != s2[j].id by {
        if j == s.len() {
            assert(s2[i] == s[i]);
        }
    }
    let k = idx_of(s2, id);
    assert(0 <= k < s2.len() && s2[k].id == id);
    if k < s.len() {
        assert(s2[k] == s[k]);
    }
    assert(k == s.len());
}

/// The store after a batch of creations, applied in order: each step appends
/// a record with the given id and task.
pub open spec fn create_all(
    s: Seq<TodoView>,
    ids: Seq<Seq<char>>,
    tasks: Seq<Seq<char>>,
) -> Seq<TodoView>
    decreases ids.len(),
{
    if ids.len() == 0 {
        s
    } else {
        create_all(create_model(s, ids[0], tasks[0]), ids.drop_first(), tasks.drop_first())
    }
}

/// Each id of the batch is fresh with respect to the store of its own step,
/// which is what `Store::create` guarantees of the ids it generates.
pub open spec fn each_id_fresh(s: Seq<TodoView>, ids: Seq<Seq<char>>, tasks: Seq<Seq<char>>) -> bool
    decreases ids.len(),
{
    if ids.len() == 0 {
        true
    } else {
        &&& !has_id(s, ids[0])
        &&& each_id_fresh(create_model(s, ids[0], tasks[0]), ids.drop_first(), tasks.drop_first())
    }
}

/// An id already present in the store is avoided by every id of a fresh
/// batch.
proof fn lemma_fresh_ids_avoid(
    s: Seq<TodoView>,
    ids: Seq<Seq<char>>,
    tasks: Seq<Seq<char>>,
    x: Seq<char>,
)
    requires
        ids.len() == tasks.len(),
        each_id_fresh(s, ids, tasks),
        has_id(s, x),
    ensures
        forall|j: int| 0 <= j < ids.len() ==> ids[j] != x,
    decreases ids.len(),
{
    if ids.len() > 0 {
        let s2 = create_model(s, ids[0], tasks[0]);
        let w = choose|i: int| 0 <= i < s.len() && s[i].id == x;
        assert(s2[w].id == x);
        lemma_fresh_ids_avoid(s2, ids.drop_first(), tasks.drop_first(), x);
        assert forall|j: int| 0 <= j < ids.len() implies ids[j] != x by {
            if j > 0 {
                assert(ids.drop_first()[j - 1] == ids[j]);
            }
        }
    }
}

/// Uniqueness: over any batch of creations whose ids are fresh at their own
/// step, the returned ids are pairwise distinct.
pub proof fn lemma_created_ids_distinct(s: Seq<TodoView>, ids: Seq<Seq<char>>, tasks: Seq<Seq<char>>)
    requires
        ids.len() == tasks.len(),
        each_id_fresh(s, ids, tasks),
    ensures
        forall|i: int, j: int| 0 <= i < j < ids.len() ==> ids[i] != ids[j],
    decreases ids.len(),
{
    if ids.len() > 0 {
        let s2 = create_model(s, ids[0], tasks[0]);
        assert(s2[s.len() as int].id == ids[0]);
        assert(has_id(s2, ids[0]));
        lemma_fresh_ids_avoid(s2, ids.drop_first(), tasks.drop_first(), ids[0]);
        lemma_created_ids_distinct(s2, ids.drop_first(), tasks.drop_first());
        assert forall|i: int, j: int| 0 <= i < j < ids.len() implies ids[i] != ids[j] by {
            if i == 0 {
                assert(ids.drop_first()[j - 1] == ids[j]);
            } else {
                assert(ids.drop_first()[i - 1] == ids[i]);
                assert(ids.drop_first()[j - 1] == ids[j]);
            }
        }
    }
}

/// List completeness: a batch of creations appends exactly its records, in
/// insertion order, after the records already present; a listing of the
/// store therefore shows the old records followed by the new tasks in order.
pub proof fn lemma_create_all_appends(s: Seq<TodoView>, ids: Seq<Seq<char>>, tasks: Seq<Seq<char>>)
    requires
        ids.len() == tasks.len(),
    ensures
        ({
            let r = create_all(s, ids, tasks);
            &&& r.len() == s.len() + ids.len()
            &&& (forall|i: int| 0 <= i < s.len() ==> r[i] == s[i])
            &&& (forall|k: int|
                0 <= k < ids.len() ==> r[s.len() + k] == (TodoView {
                    id: ids[k],
                    task: tasks[k],
                    completed: false,
                }))
        }),
    decreases ids.len(),
{
    if ids.len() > 0 {
        let s2 = create_model(s, ids[0], tasks[0]);
        lemma_create_all_appends(s2, ids.drop_first(), tasks.drop_first());
        let r = create_all(s, ids, tasks);
        assert forall|k: int|
            0 <= k < ids.len() implies r[s.len() + k] == (TodoView {
            id: ids[k],
            task: tasks[k],
            completed: false,
        }) by {
            if k == 0 {
                assert(r[s2.len() - 1] == s2[s2.len() - 1]);
            } else {
                assert(ids.drop_first()[k - 1] == ids[k]);
                assert(tasks.drop_first()[k - 1] == tasks[k]);
                assert(r[s2.len() + (k - 1)] == (TodoView {
                    id: ids[k],
                    task: tasks[k],
                    completed: false,
                }));
            }
        }
    }
}

/// Update idempotence: updating a record twice with the same task and flag
/// leaves the same store as updating it once.
pub proof fn lemma_update_idempotent(
    s: Seq<TodoView>,
    id: Seq<char>,
    task: Seq<char>,
    completed: bool,
)
    requires
        distinct_ids(s),
        has_id(s, id),
    ensures
        ({
            let s1 = update_model(s, id, task, completed);
            &&& distinct_ids(s1)
            &&& has_id(s1, id)
            &&& update_model(s1, id, task, completed) == s1
        }),
{
    let j = idx_of(s, id);
    assert(0 <= j < s.len() && s[j].id == id);
    let s1 = update_model(s, id, task, completed);
    assert(s1[j].id == id);
    assert forall|a: int, b: int| 0 <= a < b < s1.len() implies s1[a].id != s1[b].id by {
        assert(s[a].id != s[b].id);
    }
    let j2 = idx_of(s1, id);
    assert(0 <= j2 < s1.len() && s1[j2].id == id);
    if j2 != j {
        if j2 < j {
            assert(s1[j2].id != s1[j].id);
        } else {
            assert(s1[j].id != s1[j2].id);
        }
    }
    assert(j2 == j);
    assert(update_model(s1, id, task, completed) =~= s1);
}

/// Delete finality: once a record is removed, its id resolves to nothing, so
/// a later get, update or delete of that id reports it as missing.
pub proof fn lemma_delete_finality(s: Seq<TodoView>, id: Seq<char>)
    requires
        distinct_ids(s),
        has_id(s, id),
    ensures
        ({
            let s1 = delete_model(s, id);
            &&& distinct_ids(s1)
            &&& !has_id(s1, id)
        }),
{
    let j = idx_of(s, id);
    assert(0 <= j < s.len() && s[j].id == id);
    let s1 = delete_model(s, id);
    assert forall|a: int, b: int| 0 <= a < b < s1.len() implies s1[a].id != s1[b].id by {
        let sa = if a < j { a } else { a + 1 };
        let sb = if b < j { b } else { b + 1 };
        assert(s1[a] == s[sa]);
        assert(s1[b] == s[sb]);
    }
    assert forall|k: int| 0 <= k < s1.len() implies s1[k].id != id by {
        let m = if k < j { k } else { k + 1 };
        assert(s1[k] == s[m]);
        if m < j {
            assert(s[m].id != s[j].id);
        } else if m > j {
            assert(s[j].id != s[m].id);
        }
    }
}

} // verus!
