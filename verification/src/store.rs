//! The store: the records of the service and the operations on them.

use crate::error::StoreError;
use crate::ident::{is_random_uuid, random_uuid};
use crate::lemmas::{
    lemma_first_is_unique, lemma_ids_of_push, lemma_without, lemma_without_of_missing,
};
use crate::model::{first_at, first_index, ids_of, without, StoreView};
use crate::todo::{Todo, TodoView};
use std::collections::HashSet;
use vstd::prelude::*;

verus! {

/// The collection of todo records.
///
/// Beside the records the store remembers every identifier that one of its
/// records has carried, so that a deleted record's identifier is not given
/// out again.
///
/// Each operation takes the store by `&mut` or `&`, so it sees and leaves a
/// whole store. Callers that share one store put it behind a lock and hold
/// the lock for the length of one operation.
pub struct TodoStore {
    todos: Vec<Todo>,
    issued: HashSet<u128>,
}

impl View for TodoStore {
    type V = StoreView;

    closed spec fn view(&self) -> StoreView {
        StoreView { todos: self.todos.deep_view(), seen: self.issued@ }
    }
}

impl TodoStore {
    /// Holds of every store at all times: the identifier of each record is
    /// among those seen.
    #[verifier::type_invariant]
    pub open spec fn wf(self) -> bool {
        self@.wf()
    }

    /// Moves the records and the identifiers out and leaves an empty store,
    /// until `put_parts` brings them back.
    fn take_parts(&mut self) -> (parts: (Vec<Todo>, HashSet<u128>))
        ensures
            parts.0.deep_view() == old(self)@.todos,
            parts.1@ == old(self)@.seen,
            old(self)@.wf(),
            final(self)@ == StoreView::empty(),
    {
        proof {
            use_type_invariant(&*self);
        }
        let mut taken = TodoStore::new();
        std::mem::swap(self, &mut taken);
        (taken.todos, taken.issued)
    }

    /// Makes `todos` and `issued` the store's records and identifiers.
    fn put_parts(&mut self, todos: Vec<Todo>, issued: HashSet<u128>)
        requires
            (StoreView { todos: todos.deep_view(), seen: issued@ }).wf(),
        ensures
            final(self)@ == (StoreView { todos: todos.deep_view(), seen: issued@ }),
    {
        *self = TodoStore { todos, issued };
    }

    /// The store at startup: no records, no identifier seen.
    pub fn new() -> (store: TodoStore)
        ensures
            store@ == StoreView::empty(),
    {
        let store = TodoStore { todos: Vec::new(), issued: HashSet::new() };
        assert(store@.todos =~= Seq::empty());
        store
    }

    /// Adds a record for `task` under the identifier `id` and hands out the
    /// new record, unless a record of this store has carried `id` before:
    /// then nothing is added and the error is `IdTaken`.
    pub fn add_with_id(&mut self, id: u128, task: String) -> (result: Result<Todo, StoreError>)
        ensures
            match result {
                Ok(todo) => {
                    &&& !old(self)@.seen.contains(id)
                    &&& !old(self)@.holds(id)
                    &&& todo@ == TodoView::created(id, task@)
                    &&& final(self)@ == old(self)@.add(id, task@)
                },
                Err(error) => {
                    &&& old(self)@.seen.contains(id)
                    &&& error == StoreError::IdTaken
                    &&& final(self)@ == old(self)@
                },
            },
    {
        proof {
            use_type_invariant(&*self);
        }
        if self.issued.contains(&id) {
            return Err(StoreError::IdTaken);
        }
        let todo = Todo::new(id, task);
        let copy = todo.clone();
        let (mut todos, mut issued) = self.take_parts();
        issued.insert(id);
        todos.push(todo);
        assert(todos.deep_view() =~= old(self)@.todos.push(TodoView::created(id, task@)));
        self.put_parts(todos, issued);
        Ok(copy)
    }

    /// Adds a record for `task` under a freshly drawn random UUID and hands
    /// out the new record.
    ///
    /// The identifier is drawn once. Should it have been in the store
    /// before, nothing is added and the error is `IdTaken`. That cannot
    /// happen to a store that has seen no identifier with the marks of a
    /// random UUID, such as a new one: there the add goes through.
    pub fn add(&mut self, task: String) -> (result: Result<Todo, StoreError>)
        ensures
            (forall|id: u128| #[trigger] is_random_uuid(id) ==> !old(self)@.seen.contains(id))
                ==> result is Ok,
            match result {
                Ok(todo) => {
                    &&& todo@.id matches Some(id)
                    &&& is_random_uuid(id)
                    &&& !old(self)@.seen.contains(id)
                    &&& !old(self)@.holds(id)
                    &&& todo@ == TodoView::created(id, task@)
                    &&& final(self)@ == old(self)@.add(id, task@)
                },
                Err(error) => {
                    &&& error == StoreError::IdTaken
                    &&& final(self)@ == old(self)@
                    &&& exists|id: u128|
                        #[trigger] is_random_uuid(id) && old(self)@.seen.contains(id)
                },
            },
    {
        let id = random_uuid();
        self.add_with_id(id, task)
    }

    /// The records of the store, in the order in which they came.
    pub fn list(&self) -> (snapshot: Vec<Todo>)
        ensures
            snapshot.deep_view() == self@.todos,
    {
        let snapshot = self.todos.clone();
        assert(snapshot.deep_view() =~= self.todos.deep_view());
        snapshot
    }

    /// Overwrites the task and the completion flag of the first record that
    /// carries `id`, and hands out the record as it then is. Where no record
    /// carries `id` the store stays as it is and the error is `NotFound`.
    pub fn update(&mut self, id: u128, task: String, completed: Option<bool>) -> (result:
        Result<Todo, StoreError>)
        ensures
            match result {
                Ok(todo) => {
                    &&& old(self)@.holds(id)
                    &&& todo@ == (TodoView { id: Some(id), task: task@, completed })
                    &&& final(self)@ == old(self)@.update(id, task@, completed)
                },
                Err(error) => {
                    &&& !old(self)@.holds(id)
                    &&& error == StoreError::NotFound
                    &&& final(self)@ == old(self)@
                },
            },
    {
        let (mut todos, issued) = self.take_parts();
        let ghost before = todos.deep_view();
        let mut i: usize = 0;
        while i < todos.len()
            invariant
                i <= todos.len(),
                todos.deep_view() == before,
                old(self)@ == (StoreView { todos: before, seen: issued@ }),
                old(self)@.wf(),
                forall|j: int| 0 <= j < i ==> (#[trigger] before[j]).id != Some(id),
            decreases todos.len() - i,
        {
            if todos[i].id == Some(id) {
                let revised = Todo { id: Some(id), task, completed };
                let copy = revised.clone();
                todos.set(i, revised);
                proof {
                    assert(first_at(before, id, i as int));
                    lemma_first_is_unique(before, id, i as int, first_index(before, id));
                    let after = before.update(i as int, before[i as int].revised(task@, completed));
                    assert(todos.deep_view() =~= after);
                    assert forall|k: int| 0 <= k < after.len() implies (#[trigger] after[k]).id
                        == before[k].id by {}
                }
                self.put_parts(todos, issued);
                return Ok(copy);
            }
            i += 1;
        }
        self.put_parts(todos, issued);
        Err(StoreError::NotFound)
    }

    /// Removes every record that carries `id`; the others keep their order.
    /// The identifier stays among those seen, so it is not given out again.
    /// Where no record carries `id` the store stays as it is and the error
    /// is `NotFound`.
    pub fn delete(&mut self, id: u128) -> (result: Result<(), StoreError>)
        ensures
            match result {
                Ok(_) => old(self)@.holds(id) && final(self)@ == old(self)@.delete(id),
                Err(error) => {
                    &&& !old(self)@.holds(id)
                    &&& error == StoreError::NotFound
                    &&& final(self)@ == old(self)@
                },
            },
    {
        let (mut todos, issued) = self.take_parts();
        let ghost before = todos.deep_view();
        let ghost keep = |t: TodoView| t.id != Some(id);
        let mut found = false;
        let mut i: usize = todos.len();
        proof {
            assert(before.subrange(0, i as int) =~= before);
            assert(before.subrange(i as int, before.len() as int) =~= Seq::<TodoView>::empty());
        }
        // From the back to the front: what lies behind `i` has been dealt with.
        while i > 0
            invariant
                i <= todos.len(),
                i <= before.len(),
                keep == |t: TodoView| t.id != Some(id),
                todos.deep_view() == before.subrange(0, i as int) + before.subrange(
                    i as int,
                    before.len() as int,
                ).filter(keep),
                found <==> exists|j: int|
                    i <= j < before.len() && (#[trigger] before[j]).id == Some(id),
                old(self)@ == (StoreView { todos: before, seen: issued@ }),
                old(self)@.wf(),
            decreases i,
        {
            i -= 1;
            let ghost current = todos.deep_view();
            let ghost head = before.subrange(0, i as int);
            let ghost tail = before.subrange(i as int + 1, before.len() as int);
            proof {
                assert(before.subrange(0, i as int + 1) =~= head.push(before[i as int]));
                assert(before.subrange(i as int, before.len() as int) =~= seq![before[i as int]]
                    + tail);
                Seq::filter_distributes_over_add(seq![before[i as int]], tail, keep);
                reveal_with_fuel(Seq::filter, 2);
                assert(seq![before[i as int]].drop_last() =~= Seq::<TodoView>::empty());
                assert(current[i as int] == before[i as int]);
            }
            if todos[i].id == Some(id) {
                todos.remove(i);
                found = true;
                proof {
                    assert(seq![before[i as int]].filter(keep) =~= Seq::<TodoView>::empty());
                    assert(todos.deep_view() =~= current.remove(i as int));
                    assert(current.remove(i as int) =~= head + tail.filter(keep));
                }
            } else {
                proof {
                    assert(seq![before[i as int]].filter(keep) =~= seq![before[i as int]]);
                    assert(current =~= head + (seq![before[i as int]] + tail.filter(keep)));
                }
            }
        }
        proof {
            assert(before.subrange(0, 0) =~= Seq::<TodoView>::empty());
            assert(before.subrange(0, before.len() as int) =~= before);
            assert(todos.deep_view() =~= without(before, id));
            lemma_without(before, id);
            if !found {
                lemma_without_of_missing(before, id);
            }
        }
        self.put_parts(todos, issued);
        if found {
            Ok(())
        } else {
            Err(StoreError::NotFound)
        }
    }

    /// The records that an export writes out: all of them, in order.
    pub fn export(&self) -> (snapshot: Vec<Todo>)
        ensures
            snapshot.deep_view() == self@.todos,
    {
        self.list()
    }

    /// Appends `records` as they are, all of them. Their identifiers are
    /// kept, not drawn anew, and count as seen from now on.
    pub fn import(&mut self, records: Vec<Todo>)
        ensures
            final(self)@ == old(self)@.import(records.deep_view()),
    {
        let (mut todos, mut issued) = self.take_parts();
        let mut incoming = records;
        let ghost seen_before = issued@;
        let mut i: usize = 0;
        proof {
            assert(ids_of(records.deep_view().subrange(0, 0)) =~= Set::<u128>::empty());
            assert(seen_before.union(Set::<u128>::empty()) =~= seen_before);
        }
        while i < incoming.len()
            invariant
                i <= incoming.len(),
                incoming == records,
                issued@ == seen_before.union(ids_of(records.deep_view().subrange(0, i as int))),
            decreases incoming.len() - i,
        {
            let ghost prefix = records.deep_view().subrange(0, i as int);
            proof {
                lemma_ids_of_push(prefix, records.deep_view()[i as int]);
                assert(records.deep_view().subrange(0, i as int + 1) =~= prefix.push(
                    records.deep_view()[i as int],
                ));
            }
            match incoming[i].id {
                Some(id) => {
                    issued.insert(id);
                    assert(issued@ =~= seen_before.union(ids_of(prefix).insert(id)));
                },
                None => {},
            }
            i += 1;
        }
        assert(records.deep_view().subrange(0, i as int) =~= records.deep_view());
        let ghost todos_before = todos.deep_view();
        todos.append(&mut incoming);
        proof {
            let after = todos_before + records.deep_view();
            assert(todos.deep_view() =~= after);
            assert forall|k: int| 0 <= k < after.len() implies match (#[trigger] after[k]).id {
                Some(id) => issued@.contains(id),
                None => true,
            } by {
                if k >= todos_before.len() {
                    assert(after[k] == records.deep_view()[k - todos_before.len()]);
                } else {
                    assert(after[k] == todos_before[k]);
                }
            }
        }
        self.put_parts(todos, issued);
    }
}

} // verus!
