//! What holds of the operations taken together.
//!
//! Each law is stated over the store's view, in the terms in which the
//! operations' own contracts speak.

use crate::api::{BodyView, ReplyView, CREATED, NOT_FOUND};
use crate::error::StoreError;
use crate::lemmas::{
    lemma_count_zero, lemma_first_exists, lemma_first_is_unique, lemma_without,
    lemma_without_keeps_distinct, lemma_without_of_missing, lemma_without_single,
};
use crate::model::{carries, count, distinct_ids, first_at, first_index, StoreView};
use crate::todo::TodoView;
use vstd::prelude::*;

verus! {

/// An identifier that the store has not seen is carried by none of its
/// records. After a record came in under it, the record stands last in the
/// list, not completed, behind the records that were there, and is the first
/// and only one that carries the identifier.
pub proof fn lemma_add_is_fresh(store: StoreView, id: u128, task: Seq<char>)
    requires
        store.wf(),
        !store.seen.contains(id),
    ensures
        !store.holds(id),
        store.add(id, task).wf(),
        store.add(id, task).holds(id),
        store.add(id, task).todos.len() == store.todos.len() + 1,
        store.add(id, task).todos.last() == TodoView::created(id, task),
        store.add(id, task).todos.last().completed == Some(false),
        first_index(store.add(id, task).todos, id) == store.todos.len(),
        count(store.add(id, task).todos, id) == 1,
        forall|i: int|
            0 <= i < store.todos.len() ==> store.add(id, task).todos[i]
                == #[trigger] store.todos[i],
{
    let after = store.add(id, task).todos;
    let last = store.todos.len() as int;
    assert forall|j: int| 0 <= j < last implies (#[trigger] after[j]).id != Some(id) by {
        assert(after[j] == store.todos[j]);
    }
    assert(first_at(after, id, last));
    lemma_first_is_unique(after, id, last, first_index(after, id));
    assert forall|i: int| 0 <= i < after.len() implies match (#[trigger] after[i]).id {
        Some(x) => store.add(id, task).seen.contains(x),
        None => true,
    } by {
        if i < last {
            assert(after[i] == store.todos[i]);
        }
    }
    assert(count(after, id) == 1) by {
        reveal(Seq::filter);
        assert(after.drop_last() == store.todos);
        lemma_count_zero(store.todos, id);
    }
}

/// A store at startup has seen nothing, so whatever identifier is drawn for
/// its first add, the answer is 201 and the list holds the new record alone.
pub proof fn lemma_first_add_is_created(id: u128, task: Seq<char>)
    ensures
        ReplyView::creation(StoreView::empty(), id, task).status == CREATED,
        ReplyView::creation(StoreView::empty(), id, task).body == BodyView::Todo(
            TodoView::created(id, task),
        ),
        StoreView::empty().add(id, task).todos == seq![TodoView::created(id, task)],
{
    assert(StoreView::empty().add(id, task).todos =~= seq![TodoView::created(id, task)]);
}

/// Updating under an identifier that no record carries leaves the store as
/// it is.
pub proof fn lemma_update_of_missing(
    store: StoreView,
    id: u128,
    task: Seq<char>,
    completed: Option<bool>,
)
    requires
        !store.holds(id),
    ensures
        store.update(id, task, completed) == store,
{
}

/// Updating under an identifier that a record carries changes the first such
/// record and no other: its task and completion flag are the given ones, its
/// identifier stays, and the list is as long as before.
pub proof fn lemma_update_of_present(
    store: StoreView,
    id: u128,
    task: Seq<char>,
    completed: Option<bool>,
)
    requires
        store.holds(id),
    ensures
        first_at(store.todos, id, first_index(store.todos, id)),
        store.update(id, task, completed).todos.len() == store.todos.len(),
        store.update(id, task, completed).todos[first_index(store.todos, id)] == (TodoView {
            id: Some(id),
            task,
            completed,
        }),
        forall|i: int|
            0 <= i < store.todos.len() && i != first_index(store.todos, id) ==> store.update(
                id,
                task,
                completed,
            ).todos[i] == #[trigger] store.todos[i],
        store.update(id, task, completed).seen == store.seen,
        store.wf() ==> store.update(id, task, completed).wf(),
{
    lemma_first_exists(store.todos, id);
}

/// Deleting leaves no record under the identifier, so a second delete of the
/// same identifier finds nothing and changes nothing.
pub proof fn lemma_delete_twice(store: StoreView, id: u128)
    ensures
        !store.delete(id).holds(id),
        store.delete(id).delete(id) == store.delete(id),
        store.wf() ==> store.delete(id).wf(),
{
    lemma_without(store.todos, id);
    lemma_without_of_missing(store.delete(id).todos, id);
    assert forall|i: int| 0 <= i < store.delete(id).todos.len() implies match (
    #[trigger] store.delete(id).todos[i]).id {
        Some(x) => store.wf() ==> store.seen.contains(x),
        None => true,
    } by {}
}

/// A second delete of the same identifier is answered with "not found",
/// whatever the first one found.
pub proof fn lemma_second_delete_is_not_found(store: StoreView, id: u128)
    ensures
        ReplyView::removal(store.delete(id), id) == ReplyView::failure(StoreError::NotFound),
        ReplyView::removal(store.delete(id), id).status == NOT_FOUND,
{
    lemma_delete_twice(store, id);
}

/// Where exactly one record carries the identifier, deleting removes that
/// record and no other: the list is shorter by one and otherwise the same.
pub proof fn lemma_delete_removes_one(store: StoreView, id: u128)
    requires
        count(store.todos, id) == 1,
    ensures
        store.holds(id),
        store.delete(id).todos.len() == store.todos.len() - 1,
        store.delete(id).todos == store.todos.remove(first_index(store.todos, id)),
{
    lemma_without(store.todos, id);
    lemma_count_zero(store.todos, id);
    lemma_first_exists(store.todos, id);
    lemma_without_single(store.todos, id, first_index(store.todos, id));
}

/// Where every record has an identifier of its own, each identifier that is
/// carried is carried once, so that deleting it removes exactly one record.
pub proof fn lemma_distinct_ids_count(records: Seq<TodoView>, id: u128)
    requires
        distinct_ids(records),
        carries(records, id),
    ensures
        count(records, id) == 1,
    decreases records.len(),
{
    reveal(Seq::filter);
    let front = records.drop_last();
    lemma_count_zero(front, id);
    if records.last().id != Some(id) {
        let i = choose|i: int| 0 <= i < records.len() && (#[trigger] records[i]).id == Some(id);
        assert(front[i].id == Some(id));
        lemma_distinct_ids_count(front, id);
    } else if carries(front, id) {
        let i = choose|i: int| 0 <= i < front.len() && (#[trigger] front[i]).id == Some(id);
        assert(records[i].id != records[records.len() - 1].id);
    }
}

/// Import is additive: the records that were there stay in place and the
/// imported ones follow in their order.
pub proof fn lemma_import_is_additive(store: StoreView, records: Seq<TodoView>)
    ensures
        store.import(records).todos.len() == store.todos.len() + records.len(),
        store.import(records).todos.subrange(0, store.todos.len() as int) == store.todos,
        store.import(records).todos.subrange(
            store.todos.len() as int,
            (store.todos.len() + records.len()) as int,
        ) == records,
        store.wf() ==> store.import(records).wf(),
{
    let after = store.import(records).todos;
    assert forall|i: int| 0 <= i < after.len() implies match (#[trigger] after[i]).id {
        Some(x) => store.wf() ==> store.import(records).seen.contains(x),
        None => true,
    } by {
        if i >= store.todos.len() {
            assert(after[i] == records[i - store.todos.len()]);
        }
    }
}

/// Importing what an export gave keeps every record there was, with its
/// identifier and fields, and adds each of them once more: the result is
/// the list followed by itself, and no identifier is new to the store.
pub proof fn lemma_import_of_export(store: StoreView)
    requires
        store.wf(),
    ensures
        store.import(store.todos).todos == store.todos + store.todos,
        forall|i: int|
            0 <= i < store.todos.len() ==> store.import(store.todos).todos.contains(
                #[trigger] store.todos[i],
            ),
        store.import(store.todos).seen == store.seen,
        store.import(store.todos).wf(),
{
    lemma_import_is_additive(store, store.todos);
    assert forall|i: int| 0 <= i < store.todos.len() implies store.import(
        store.todos,
    ).todos.contains(#[trigger] store.todos[i]) by {
        assert(store.import(store.todos).todos[i] == store.todos[i]);
    }
    assert(store.import(store.todos).seen =~= store.seen);
}

/// Whether each identifier of `ids` was unseen when its turn came, which is
/// when every one of the adds goes through.
pub open spec fn each_unseen(store: StoreView, ids: Seq<u128>, tasks: Seq<Seq<char>>) -> bool {
    forall|k: int|
        0 <= k < ids.len() ==> !(#[trigger] store.add_each(
            ids.subrange(0, k),
            tasks.subrange(0, k),
        )).seen.contains(ids[k])
}

/// Adds that go through one after the other, in whatever order the callers
/// were served, never share an identifier, none of them takes one that the
/// store had seen, and every one of their records is in the list afterwards,
/// behind those that were there.
pub proof fn lemma_adds_in_turn(store: StoreView, ids: Seq<u128>, tasks: Seq<Seq<char>>)
    requires
        store.wf(),
        ids.len() == tasks.len(),
        each_unseen(store, ids, tasks),
    ensures
        ids.no_duplicates(),
        forall|k: int| 0 <= k < ids.len() ==> !store.seen.contains(#[trigger] ids[k]),
        store.add_each(ids, tasks).todos == store.todos + Seq::new(
            ids.len(),
            |k: int| TodoView::created(ids[k], tasks[k]),
        ),
        store.add_each(ids, tasks).seen == store.seen.union(ids.to_set()),
        store.add_each(ids, tasks).wf(),
    decreases ids.len(),
{
    if ids.len() > 0 {
        let n = ids.len() - 1;
        let front_ids = ids.drop_last();
        let front_tasks = tasks.drop_last();
        assert forall|k: int| 0 <= k < front_ids.len() implies !(#[trigger] store.add_each(
            front_ids.subrange(0, k),
            front_tasks.subrange(0, k),
        )).seen.contains(front_ids[k]) by {
            assert(front_ids.subrange(0, k) =~= ids.subrange(0, k));
            assert(front_tasks.subrange(0, k) =~= tasks.subrange(0, k));
        }
        lemma_adds_in_turn(store, front_ids, front_tasks);
        assert(ids.subrange(0, n) =~= front_ids);
        assert(tasks.subrange(0, n) =~= front_tasks);
        lemma_add_is_fresh(store.add_each(front_ids, front_tasks), ids.last(), tasks.last());
        assert forall|k: int| 0 <= k < n implies ids[k] != ids[n] by {
            assert(front_ids[k] == ids[k]);
            assert(front_ids.to_set().contains(front_ids[k]));
        }
        assert forall|i: int, j: int|
            0 <= i < ids.len() && 0 <= j < ids.len() && i != j implies ids[i] != ids[j] by {
            if i < n && j < n {
                assert(front_ids[i] != front_ids[j]);
            }
        }
        assert forall|k: int| 0 <= k < ids.len() implies !store.seen.contains(
            #[trigger] ids[k],
        ) by {
            if k < n {
                assert(front_ids[k] == ids[k]);
            }
        }
        assert(ids.to_set() =~= front_ids.to_set().insert(ids.last())) by {
            front_ids.lemma_push_to_set_commute(ids.last());
            assert(front_ids.push(ids.last()) =~= ids);
        }
    }
}

/// The records of a store that only ever added, updated and deleted each
/// have an identifier of their own: the empty store is so, and each of the
/// three operations keeps it so.
pub proof fn lemma_distinct_ids_are_kept(
    store: StoreView,
    id: u128,
    task: Seq<char>,
    completed: Option<bool>,
)
    requires
        store.wf(),
        distinct_ids(store.todos),
    ensures
        distinct_ids(StoreView::empty().todos),
        !store.seen.contains(id) ==> distinct_ids(store.add(id, task).todos),
        distinct_ids(store.update(id, task, completed).todos),
        distinct_ids(store.delete(id).todos),
{
    if store.holds(id) {
        lemma_update_of_present(store, id, task, completed);
    }
    lemma_without_keeps_distinct(store.todos, id);
}

} // verus!
