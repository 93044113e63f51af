//! The store as contracts see it, and what each operation does to it.

use crate::todo::TodoView;
use vstd::prelude::*;

verus! {

/// Whether some record of `records` carries the identifier `id`.
pub open spec fn carries(records: Seq<TodoView>, id: u128) -> bool {
    exists|i: int| 0 <= i < records.len() && (#[trigger] records[i]).id == Some(id)
}

/// Whether `i` is the place of the first record of `records` that carries `id`.
pub open spec fn first_at(records: Seq<TodoView>, id: u128, i: int) -> bool {
    &&& 0 <= i < records.len()
    &&& records[i].id == Some(id)
    &&& forall|j: int| 0 <= j < i ==> (#[trigger] records[j]).id != Some(id)
}

/// The place of the first record that carries `id`, where there is one.
pub open spec fn first_index(records: Seq<TodoView>, id: u128) -> int {
    choose|i: int| first_at(records, id, i)
}

/// How many records of `records` carry `id`.
pub open spec fn count(records: Seq<TodoView>, id: u128) -> nat {
    records.filter(|t: TodoView| t.id == Some(id)).len()
}

/// `records` without those that carry `id`; the others keep their order.
pub open spec fn without(records: Seq<TodoView>, id: u128) -> Seq<TodoView> {
    records.filter(|t: TodoView| t.id != Some(id))
}

/// The identifiers that the records of `records` carry.
pub open spec fn ids_of(records: Seq<TodoView>) -> Set<u128> {
    Set::new(|id: u128| carries(records, id))
}

/// Every record has an identifier, and no two records share one.
pub open spec fn distinct_ids(records: Seq<TodoView>) -> bool {
    &&& forall|i: int| 0 <= i < records.len() ==> (#[trigger] records[i]).id is Some
    &&& forall|i: int, j: int|
        0 <= i < j < records.len() ==> (#[trigger] records[i]).id != (#[trigger] records[j]).id
}

/// The state of a store: its records in the order in which they came, and
/// every identifier that a record of the store has ever carried.
pub struct StoreView {
    pub todos: Seq<TodoView>,
    pub seen: Set<u128>,
}

impl StoreView {
    /// The store at startup.
    pub open spec fn empty() -> StoreView {
        StoreView { todos: Seq::empty(), seen: Set::empty() }
    }

    /// The identifier of every record is among those seen.
    pub open spec fn wf(self) -> bool {
        forall|i: int|
            0 <= i < self.todos.len() ==> match (#[trigger] self.todos[i]).id {
                Some(id) => self.seen.contains(id),
                None => true,
            }
    }

    /// Whether a record of the store carries `id`.
    pub open spec fn holds(self, id: u128) -> bool {
        carries(self.todos, id)
    }

    /// The store after a new record for `task` came in under `id`.
    pub open spec fn add(self, id: u128, task: Seq<char>) -> StoreView {
        StoreView {
            todos: self.todos.push(TodoView::created(id, task)),
            seen: self.seen.insert(id),
        }
    }

    /// The store after the tasks of `tasks` came in one after the other, each
    /// under the identifier at its place in `ids`.
    pub open spec fn add_each(self, ids: Seq<u128>, tasks: Seq<Seq<char>>) -> StoreView
        decreases ids.len(),
    {
        if ids.len() == 0 {
            self
        } else {
            self.add_each(ids.drop_last(), tasks.drop_last()).add(ids.last(), tasks.last())
        }
    }

    /// The store after the first record that carries `id` had its task and
    /// completion flag overwritten. Where no record carries `id` the store
    /// is as before.
    pub open spec fn update(self, id: u128, task: Seq<char>, completed: Option<bool>) -> StoreView {
        if self.holds(id) {
            let i = first_index(self.todos, id);
            StoreView {
                todos: self.todos.update(i, self.todos[i].revised(task, completed)),
                seen: self.seen,
            }
        } else {
            self
        }
    }

    /// The store after the records that carry `id` left it. The identifier
    /// stays among those seen.
    pub open spec fn delete(self, id: u128) -> StoreView {
        StoreView { todos: without(self.todos, id), seen: self.seen }
    }

    /// The store after `records` were appended as they are, identifiers
    /// included.
    pub open spec fn import(self, records: Seq<TodoView>) -> StoreView {
        StoreView { todos: self.todos + records, seen: self.seen.union(ids_of(records)) }
    }
}

} // verus!
