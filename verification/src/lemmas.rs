//! Facts about the notions that the store's view is built from: the first
//! record under an identifier, the records without an identifier, and the
//! identifiers that records carry.

use crate::model::{carries, count, distinct_ids, first_at, first_index, ids_of, without};
use crate::todo::TodoView;
use vstd::prelude::*;

verus! {

/// At most one place is the first that carries `id`.
pub proof fn lemma_first_is_unique(records: Seq<TodoView>, id: u128, i: int, j: int)
    requires
        first_at(records, id, i),
        first_at(records, id, j),
    ensures
        i == j,
{
}

/// Where a record carries `id`, there is a first one.
pub proof fn lemma_first_exists(records: Seq<TodoView>, id: u128)
    requires
        carries(records, id),
    ensures
        first_at(records, id, first_index(records, id)),
    decreases records.len(),
{
    let i = choose|i: int| 0 <= i < records.len() && (#[trigger] records[i]).id == Some(id);
    let front = records.subrange(0, i);
    if carries(front, id) {
        lemma_first_exists(front, id);
        let j = first_index(front, id);
        assert forall|k: int| 0 <= k < j implies (#[trigger] records[k]).id != Some(id) by {
            assert(records[k] == front[k]);
        }
        assert(first_at(records, id, j));
    } else {
        assert forall|k: int| 0 <= k < i implies (#[trigger] records[k]).id != Some(id) by {
            assert(front[k] == records[k]);
        }
        assert(first_at(records, id, i));
    }
}

/// What deleting by identifier leaves: each record left is a record of
/// `records` that does not carry `id`, each such record of `records` is left,
/// and as many records went as carried `id`.
pub proof fn lemma_without(records: Seq<TodoView>, id: u128)
    ensures
        forall|i: int|
            0 <= i < without(records, id).len() ==> {
                &&& (#[trigger] without(records, id)[i]).id != Some(id)
                &&& records.contains(without(records, id)[i])
            },
        forall|i: int|
            0 <= i < records.len() && (#[trigger] records[i]).id != Some(id) ==> without(
                records,
                id,
            ).contains(records[i]),
        without(records, id).len() + count(records, id) == records.len(),
        !carries(without(records, id), id),
    decreases records.len(),
{
    reveal(Seq::filter);
    if records.len() > 0 {
        lemma_without(records.drop_last(), id);
    }
}

/// Deleting under an identifier that no record carries leaves the records as
/// they are.
pub proof fn lemma_without_of_missing(records: Seq<TodoView>, id: u128)
    requires
        !carries(records, id),
    ensures
        without(records, id) == records,
    decreases records.len(),
{
    reveal(Seq::filter);
    if records.len() > 0 {
        lemma_without_of_missing(records.drop_last(), id);
    }
}

/// A record carries the identifier exactly when the count is not zero.
pub proof fn lemma_count_zero(records: Seq<TodoView>, id: u128)
    ensures
        carries(records, id) <==> count(records, id) > 0,
    decreases records.len(),
{
    reveal(Seq::filter);
    if records.len() > 0 {
        let front = records.drop_last();
        lemma_count_zero(front, id);
        if carries(records, id) {
            let i = choose|i: int| 0 <= i < records.len() && (#[trigger] records[i]).id == Some(id);
            if i < front.len() {
                assert(front[i].id == Some(id));
            }
        }
    }
}

/// Where the record at `i` is the only one that carries the identifier,
/// deleting gives the list without its place `i`.
pub proof fn lemma_without_single(records: Seq<TodoView>, id: u128, i: int)
    requires
        first_at(records, id, i),
        count(records, id) == 1,
    ensures
        without(records, id) == records.remove(i),
    decreases records.len(),
{
    reveal(Seq::filter);
    let front = records.drop_last();
    if i == records.len() - 1 {
        lemma_without_of_missing(front, id);
    } else {
        lemma_count_zero(front, id);
        lemma_without_single(front, id, i);
    }
}

/// Deleting keeps the records that stay apart: where every record had an
/// identifier of its own, so has every record that is left.
pub proof fn lemma_without_keeps_distinct(records: Seq<TodoView>, id: u128)
    requires
        distinct_ids(records),
    ensures
        distinct_ids(without(records, id)),
    decreases records.len(),
{
    reveal(Seq::filter);
    if records.len() > 0 {
        let front = records.drop_last();
        lemma_without_keeps_distinct(front, id);
        lemma_without(front, id);
    }
}

/// One more record adds its identifier, if it has one, to those carried.
pub proof fn lemma_ids_of_push(records: Seq<TodoView>, record: TodoView)
    ensures
        ids_of(records.push(record)) == match record.id {
            Some(id) => ids_of(records).insert(id),
            None => ids_of(records),
        },
{
    let longer = records.push(record);
    let expected = match record.id {
        Some(id) => ids_of(records).insert(id),
        None => ids_of(records),
    };
    assert forall|id: u128| ids_of(longer).contains(id) <==> expected.contains(id) by {
        if carries(records, id) {
            let i = choose|i: int| 0 <= i < records.len() && (#[trigger] records[i]).id == Some(id);
            assert(longer[i].id == Some(id));
        }
        if record.id == Some(id) {
            assert(longer[records.len() as int].id == Some(id));
        }
    }
}

} // verus!
