use vstd::prelude::*;

use crate::Todo;
use crate::TodoView;

verus! {

// ---------------------------------------------------------------------------
// The mathematical model of the store: a sequence of todo records whose ids
// are pairwise distinct.
// ---------------------------------------------------------------------------

/// Some record in `s` carries the id `id`.
pub open spec fn has_id(s: Seq<TodoView>, id: Seq<char>) -> bool {
    exists|i: int| 0 <= i < s.len() && s[i].id == id
}

/// The index of the record with id `id` (meaningful only under `has_id` and
/// `distinct_ids`, which make it unique).
pub open spec fn idx_of(s: Seq<TodoView>, id: Seq<char>) -> int {
    choose|i: int| 0 <= i < s.len() && s[i].id == id
}

/// The record with id `id` (meaningful only under `has_id` and
/// `distinct_ids`).
pub open spec fn lookup(s: Seq<TodoView>, id: Seq<char>) -> TodoView {
    s[idx_of(s, id)]
}

/// No two records share an id.
pub open spec fn distinct_ids(s: Seq<TodoView>) -> bool {
    forall|i: int, j: int| 0 <= i < j < s.len() ==> s[i].id != s[j].id
}

/// Creation appends a fresh record with the given id and task, not yet
/// completed.
pub open spec fn create_model(s: Seq<TodoView>, id: Seq<char>, task: Seq<char>) -> Seq<TodoView> {
    s.push(TodoView { id, task, completed: false })
}

/// Updating overwrites the task and the completion flag of the record with
/// id `id`, in place; the id itself never changes.
pub open spec fn update_model(
    s: Seq<TodoView>,
    id: Seq<char>,
    task: Seq<char>,
    completed: bool,
) -> Seq<TodoView> {
    s.update(idx_of(s, id), TodoView { id, task, completed })
}

/// Deletion removes the record with id `id`; the records around it keep
/// their order.
pub open spec fn delete_model(s: Seq<TodoView>, id: Seq<char>) -> Seq<TodoView> {
    s.remove(idx_of(s, id))
}

// ---------------------------------------------------------------------------
// Executable helpers
// ---------------------------------------------------------------------------

/// Character-for-character string equality.
fn str_eq(a: &str, b: &str) -> (r: bool)
    ensures
        r == (a@ == b@),
{
    let la = a.unicode_len();
    let lb = b.unicode_len();
    if la != lb {
        return false;
    }
    let mut i: usize = 0;
    while i < la
        invariant
            la == a@.len(),
            lb == b@.len(),
            la == lb,
            i <= la,
            forall|k: int| 0 <= k < i ==> a@[k] == b@[k],
        decreases la - i,
    {
        if a.get_char(i) != b.get_char(i) {
            return false;
        }
        i += 1;
    }
    proof {
        assert(a@ =~= b@);
    }
    true
}

/// Relies on uuid::Uuid::new_v4 and its Display impl: a version-4 UUID
/// rendered in the hyphenated form, which is 36 characters long. The value
/// is random, so nothing more is promised of it.
#[verifier::external_body]
fn random_id() -> (r: String)
    ensures
        r@.len() == 36,
{
    uuid::Uuid::new_v4().to_string()
}

// ---------------------------------------------------------------------------
// The store
// ---------------------------------------------------------------------------

/// The in-memory holder of all todo records, in insertion order.
pub struct Store {
    todos: Vec<Todo>,
}

impl View for Store {
    type V = Seq<TodoView>;

    closed spec fn view(&self) -> Seq<TodoView> {
        self.todos@.map(|_i: int, t: Todo| t@)
    }
}

impl Store {
    /// The store's invariant: ids are pairwise distinct.
    pub open spec fn wf(&self) -> bool {
        distinct_ids(self@)
    }

    /// An empty store.
    pub fn new() -> (s: Store)
        ensures
            s@ =~= Seq::<TodoView>::empty(),
            s.wf(),
    {
        Store { todos: Vec::new() }
    }

    /// Whether some record carries the id `id`.
    pub fn contains_id(&self, id: &str) -> (r: bool)
        ensures
            r == has_id(self@, id@),
    {
        let mut i: usize = 0;
        while i < self.todos.len()
            invariant
                i <= self.todos.len(),
                forall|k: int| 0 <= k < i ==> self@[k].id != id@,
            decreases self.todos.len() - i,
        {
            if str_eq(self.todos[i].id.as_str(), id) {
                proof {
                    assert(self@[i as int].id == id@);
                }
                return true;
            }
            i += 1;
        }
        false
    }

    /// An id that no current record carries: one character longer than every
    /// id in the store.
    fn fresh_fallback_id(&self) -> (r: String)
        ensures
            !has_id(self@, r@),
    {
        let mut best = String::new();
        let mut i: usize = 0;
        while i < self.todos.len()
            invariant
                i <= self.todos.len(),
                forall|k: int| 0 <= k < i ==> self@[k].id.len() <= best@.len(),
            decreases self.todos.len() - i,
        {
            if self.todos[i].id.unicode_len() > best.unicode_len() {
                best = self.todos[i].id.clone();
            }
            i += 1;
        }
        best.append("x");
        proof {
            reveal_strlit("x");
        }
        best
    }

    /// A snapshot copy of all current records, in insertion order.
    pub fn list(&self) -> (r: Vec<Todo>)
        ensures
            r@.len() == self@.len(),
            forall|i: int| 0 <= i < self@.len() ==> r@[i]@ == self@[i],
    {
        let mut out: Vec<Todo> = Vec::new();
        let mut i: usize = 0;
        while i < self.todos.len()
            invariant
                i <= self.todos.len(),
                out@.len() == i,
                forall|k: int| 0 <= k < i ==> out@[k]@ == self@[k],
            decreases self.todos.len() - i,
        {
            let t = &self.todos[i];
            out.push(Todo { id: t.id.clone(), task: t.task.clone(), completed: t.completed });
            i += 1;
        }
        out
    }

    /// A copy of the record with id `id`, or `None` if no record carries it.
    pub fn get(&self, id: &str) -> (r: Option<Todo>)
        requires
            self.wf(),
        ensures
            match r {
                Some(t) => has_id(self@, id@) && t@ == lookup(self@, id@),
                None => !has_id(self@, id@),
            },
    {
        let mut i: usize = 0;
        while i < self.todos.len()
            invariant
                self.wf(),
                i <= self.todos.len(),
                forall|k: int| 0 <= k < i ==> self@[k].id != id@,
            decreases self.todos.len() - i,
        {
            let t = &self.todos[i];
            if str_eq(t.id.as_str(), id) {
                proof {
                    assert(self@[i as int].id == id@);
                    assert(has_id(self@, id@));
                    let j = idx_of(self@, id@);
                    assert(0 <= j < self@.len() && self@[j].id == id@);
                    assert(j == i);
                }
                return Some(Todo { id: t.id.clone(), task: t.task.clone(), completed: t.completed });
            }
            i += 1;
        }
        None
    }

    /// Appends a new record with a freshly generated id, the given task, and
    /// `completed == false`, and returns a copy of it.
    pub fn create(&mut self, task: &str) -> (t: Todo)
        requires
            old(self).wf(),
        ensures
            final(self).wf(),
            t@.task == task@,
            t@.completed == false,
            !has_id(old(self)@, t@.id),
            final(self)@ == create_model(old(self)@, t@.id, task@),
    {
        let cand = random_id();
        let id = if self.contains_id(cand.as_str()) {
            self.fresh_fallback_id()
        } else {
            cand
        };
        let ret = Todo { id: id.clone(), task: task.to_owned(), completed: false };
        let stored = Todo { id, task: task.to_owned(), completed: false };
        self.todos.push(stored);
        proof {
            assert(self@ =~= create_model(old(self)@, ret@.id, task@));
            assert forall|i: int, j: int| 0 <= i < j < self@.len() implies self@[i].id
                != self@[j].id by {
                if j == self@.len() - 1 {
                    assert(self@[i] == old(self)@[i]);
                }
            }
        }
        ret
    }

    /// Overwrites the task and completion flag of the record with id `id` and
    /// returns a copy of the updated record, or `None` if no record carries
    /// that id (in which case nothing changes).
    pub fn update(&mut self, id: &str, task: &str, completed: bool) -> (r: Option<Todo>)
        requires
            old(self).wf(),
        ensures
            final(self).wf(),
            match r {
                Some(t) => {
                    &&& has_id(old(self)@, id@)
                    &&& t@ == (TodoView { id: id@, task: task@, completed })
                    &&& final(self)@ == update_model(old(self)@, id@, task@, completed)
                },
                None => !has_id(old(self)@, id@) && final(self)@ == old(self)@,
            },
    {
        let mut i: usize = 0;
        while i < self.todos.len()
            invariant
                self.wf(),
                self@ == old(self)@,
                i <= self.todos.len(),
                forall|k: int| 0 <= k < i ==> self@[k].id != id@,
            decreases self.todos.len() - i,
        {
            if str_eq(self.todos[i].id.as_str(), id) {
                proof {
                    assert(old(self)@[i as int].id == id@);
                    assert(has_id(old(self)@, id@));
                    let j = idx_of(old(self)@, id@);
                    assert(0 <= j < old(self)@.len() && old(self)@[j].id == id@);
                    assert(j == i);
                }
                let new_rec = Todo { id: id.to_owned(), task: task.to_owned(), completed };
                let ret = Todo { id: id.to_owned(), task: task.to_owned(), completed };
                self.todos[i] = new_rec;
                proof {
                    assert(self@ =~= update_model(old(self)@, id@, task@, completed));
                    assert forall|a: int, b: int| 0 <= a < b < self@.len() implies self@[a].id
                        != self@[b].id by {
                        assert(old(self)@[a].id != old(self)@[b].id);
                    }
                }
                return Some(ret);
            }
            i += 1;
        }
        None
    }

    /// Removes the record with id `id`; returns whether such a record
    /// existed (if not, nothing changes).
    pub fn delete(&mut self, id: &str) -> (r: bool)
        requires
            old(self).wf(),
        ensures
            final(self).wf(),
            r == has_id(old(self)@, id@),
            r ==> final(self)@ == delete_model(old(self)@, id@),
            !r ==> final(self)@ == old(self)@,
    {
        let mut i: usize = 0;
        while i < self.todos.len()
            invariant
                self.wf(),
                self@ == old(self)@,
                i <= self.todos.len(),
                forall|k: int| 0 <= k < i ==> self@[k].id != id@,
            decreases self.todos.len() - i,
        {
            if str_eq(self.todos[i].id.as_str(), id) {
                proof {
                    assert(old(self)@[i as int].id == id@);
                    assert(has_id(old(self)@, id@));
                    let j = idx_of(old(self)@, id@);
                    assert(0 <= j < old(self)@.len() && old(self)@[j].id == id@);
                    assert(j == i);
                }
                self.todos.remove(i);
                proof {
                    assert(self@ =~= delete_model(old(self)@, id@));
                    assert forall|a: int, b: int| 0 <= a < b < self@.len() implies self@[a].id
                        != self@[b].id by {
                        let sa = if a < i { a } else { a + 1 };
                        let sb = if b < i { b } else { b + 1 };
                        assert(self@[a] == old(self)@[sa]);
                        assert(self@[b] == old(self)@[sb]);
                    }
                }
                return true;
            }
            i += 1;
        }
        false
    }
}

} // verus!
