use todo_store::error::StoreError;
use todo_store::store::TodoStore;
use todo_store::todo::Todo;
use uuid::{Uuid, Variant};

fn record(id: Option<u128>, task: &str, completed: Option<bool>) -> Todo {
    Todo { id, task: task.to_string(), completed }
}

#[test]
fn new_store_lists_nothing() {
    let store = TodoStore::new();
    assert_eq!(store.list(), Vec::<Todo>::new());
    assert_eq!(store.export(), Vec::<Todo>::new());
}

#[test]
fn new_record_is_not_completed() {
    assert_eq!(
        Todo::new(5, "water plants".to_string()),
        record(Some(5), "water plants", Some(false))
    );
}

#[test]
fn clone_keeps_every_field() {
    let todo = record(Some(9), "call home", None);
    assert_eq!(todo.clone(), todo);
}

#[test]
fn add_with_id_appends_and_returns_the_record() {
    let mut store = TodoStore::new();
    let first = store.add_with_id(1, "buy milk".to_string());
    assert_eq!(first, Ok(record(Some(1), "buy milk", Some(false))));
    let second = store.add_with_id(2, "walk dog".to_string());
    assert_eq!(second, Ok(record(Some(2), "walk dog", Some(false))));
    assert_eq!(
        store.list(),
        vec![record(Some(1), "buy milk", Some(false)), record(Some(2), "walk dog", Some(false))]
    );
}

#[test]
fn add_with_id_refuses_an_id_in_use() {
    let mut store = TodoStore::new();
    assert!(store.add_with_id(1, "buy milk".to_string()).is_ok());
    assert_eq!(store.add_with_id(1, "walk dog".to_string()), Err(StoreError::IdTaken));
    assert_eq!(store.list(), vec![record(Some(1), "buy milk", Some(false))]);
}

#[test]
fn add_with_id_refuses_an_id_of_a_deleted_record() {
    let mut store = TodoStore::new();
    assert!(store.add_with_id(1, "buy milk".to_string()).is_ok());
    assert_eq!(store.delete(1), Ok(()));
    assert_eq!(store.add_with_id(1, "walk dog".to_string()), Err(StoreError::IdTaken));
    assert_eq!(store.list(), Vec::<Todo>::new());
}

#[test]
fn add_with_id_refuses_an_imported_id() {
    let mut store = TodoStore::new();
    store.import(vec![record(Some(40), "from file", Some(true))]);
    assert_eq!(store.add_with_id(40, "walk dog".to_string()), Err(StoreError::IdTaken));
    assert_eq!(store.list(), vec![record(Some(40), "from file", Some(true))]);
}

#[test]
fn add_draws_a_random_uuid() {
    let mut store = TodoStore::new();
    let todo = store.add("buy milk".to_string()).expect("a fresh id");
    assert_eq!(todo.task, "buy milk");
    assert_eq!(todo.completed, Some(false));
    let id = todo.id.expect("an id");
    let uuid = Uuid::from_u128(id);
    assert_eq!(uuid.get_version_num(), 4);
    assert_eq!(uuid.get_variant(), Variant::RFC4122);
    assert!(!uuid.is_nil());
    assert_eq!(
        id & 0x0000_0000_0000_f000_c000_0000_0000_0000,
        0x0000_0000_0000_4000_8000_0000_0000_0000
    );
    assert_eq!(store.list(), vec![record(Some(id), "buy milk", Some(false))]);
}

#[test]
fn add_goes_through_where_no_random_uuid_was_seen() {
    let mut store = TodoStore::new();
    assert!(store.add("first".to_string()).is_ok());

    let mut store = TodoStore::new();
    for id in 0..100u128 {
        assert!(store.add_with_id(id, format!("task {}", id)).is_ok());
    }
    store.import(vec![record(Some(u128::MAX), "from file", None), record(None, "no id", None)]);
    assert_eq!(store.delete(7), Ok(()));
    let before = store.list();
    let todo = store.add("one more".to_string()).expect("no drawn id can be taken");
    let mut expected = before;
    expected.push(record(todo.id, "one more", Some(false)));
    assert_eq!(store.list(), expected);
}

#[test]
fn add_yields_an_id_not_seen_before() {
    let mut store = TodoStore::new();
    let mut seen: Vec<u128> = Vec::new();
    for n in 0..50 {
        let before = store.list();
        let todo = store.add(format!("task {}", n)).expect("a fresh id");
        let id = todo.id.expect("an id");
        assert!(!seen.contains(&id));
        assert!(before.iter().all(|t| t.id != Some(id)));
        seen.push(id);
        let after = store.list();
        assert_eq!(after.len(), before.len() + 1);
        assert_eq!(after[after.len() - 1], record(Some(id), &format!("task {}", n), Some(false)));
        assert_eq!(&after[..before.len()], &before[..]);
    }
}

#[test]
fn update_overwrites_task_and_completed() {
    let mut store = TodoStore::new();
    assert!(store.add_with_id(1, "buy milk".to_string()).is_ok());
    assert!(store.add_with_id(2, "walk dog".to_string()).is_ok());
    let updated = store.update(2, "walk the dog".to_string(), Some(true));
    assert_eq!(updated, Ok(record(Some(2), "walk the dog", Some(true))));
    assert_eq!(
        store.list(),
        vec![record(Some(1), "buy milk", Some(false)), record(Some(2), "walk the dog", Some(true))]
    );
}

#[test]
fn update_may_clear_the_completion_flag() {
    let mut store = TodoStore::new();
    assert!(store.add_with_id(1, "buy milk".to_string()).is_ok());
    assert_eq!(
        store.update(1, "buy milk".to_string(), None),
        Ok(record(Some(1), "buy milk", None))
    );
    assert_eq!(store.list(), vec![record(Some(1), "buy milk", None)]);
}

#[test]
fn update_of_unknown_id_changes_nothing() {
    let mut store = TodoStore::new();
    assert!(store.add_with_id(1, "buy milk".to_string()).is_ok());
    let before = store.list();
    assert_eq!(store.update(2, "walk dog".to_string(), Some(true)), Err(StoreError::NotFound));
    assert_eq!(store.list(), before);
}

#[test]
fn update_on_empty_store_is_not_found() {
    let mut store = TodoStore::new();
    assert_eq!(store.update(1, "buy milk".to_string(), Some(true)), Err(StoreError::NotFound));
    assert_eq!(store.list(), Vec::<Todo>::new());
}

#[test]
fn update_changes_only_the_first_of_two_records_with_one_id() {
    let mut store = TodoStore::new();
    store.import(vec![
        record(Some(7), "first", Some(false)),
        record(None, "no id", None),
        record(Some(7), "second", Some(false)),
    ]);
    assert_eq!(
        store.update(7, "changed".to_string(), Some(true)),
        Ok(record(Some(7), "changed", Some(true)))
    );
    assert_eq!(
        store.list(),
        vec![
            record(Some(7), "changed", Some(true)),
            record(None, "no id", None),
            record(Some(7), "second", Some(false)),
        ]
    );
}

#[test]
fn delete_removes_exactly_one_record() {
    let mut store = TodoStore::new();
    assert!(store.add_with_id(1, "a".to_string()).is_ok());
    assert!(store.add_with_id(2, "b".to_string()).is_ok());
    assert!(store.add_with_id(3, "c".to_string()).is_ok());
    assert_eq!(store.delete(2), Ok(()));
    assert_eq!(
        store.list(),
        vec![record(Some(1), "a", Some(false)), record(Some(3), "c", Some(false))]
    );
}

#[test]
fn delete_twice_is_not_found_and_changes_nothing() {
    let mut store = TodoStore::new();
    assert!(store.add_with_id(1, "a".to_string()).is_ok());
    assert!(store.add_with_id(2, "b".to_string()).is_ok());
    assert_eq!(store.delete(1), Ok(()));
    let after_first = store.list();
    assert_eq!(store.delete(1), Err(StoreError::NotFound));
    assert_eq!(store.list(), after_first);
    assert_eq!(after_first, vec![record(Some(2), "b", Some(false))]);
}

#[test]
fn delete_of_unknown_id_changes_nothing() {
    let mut store = TodoStore::new();
    assert!(store.add_with_id(1, "a".to_string()).is_ok());
    assert_eq!(store.delete(9), Err(StoreError::NotFound));
    assert_eq!(store.list(), vec![record(Some(1), "a", Some(false))]);
}

#[test]
fn delete_removes_every_record_with_the_id() {
    let mut store = TodoStore::new();
    store.import(vec![
        record(Some(7), "first", Some(false)),
        record(Some(8), "other", Some(true)),
        record(Some(7), "second", None),
        record(None, "no id", None),
        record(Some(7), "third", Some(true)),
    ]);
    assert_eq!(store.delete(7), Ok(()));
    assert_eq!(
        store.list(),
        vec![record(Some(8), "other", Some(true)), record(None, "no id", None)]
    );
    assert_eq!(store.delete(7), Err(StoreError::NotFound));
}

#[test]
fn delete_first_and_last() {
    let mut store = TodoStore::new();
    assert!(store.add_with_id(1, "a".to_string()).is_ok());
    assert!(store.add_with_id(2, "b".to_string()).is_ok());
    assert!(store.add_with_id(3, "c".to_string()).is_ok());
    assert_eq!(store.delete(1), Ok(()));
    assert_eq!(store.delete(3), Ok(()));
    assert_eq!(store.list(), vec![record(Some(2), "b", Some(false))]);
    assert_eq!(store.delete(2), Ok(()));
    assert_eq!(store.list(), Vec::<Todo>::new());
}

#[test]
fn import_appends_records_as_they_are() {
    let mut store = TodoStore::new();
    assert!(store.add_with_id(1, "a".to_string()).is_ok());
    store.import(vec![record(None, "no id", None), record(Some(1), "same id", Some(true))]);
    assert_eq!(
        store.list(),
        vec![
            record(Some(1), "a", Some(false)),
            record(None, "no id", None),
            record(Some(1), "same id", Some(true)),
        ]
    );
}

#[test]
fn import_of_nothing_changes_nothing() {
    let mut store = TodoStore::new();
    assert!(store.add_with_id(1, "a".to_string()).is_ok());
    store.import(Vec::new());
    assert_eq!(store.list(), vec![record(Some(1), "a", Some(false))]);
}

#[test]
fn export_then_import_keeps_every_record_and_adds_it_again() {
    let mut store = TodoStore::new();
    assert!(store.add_with_id(1, "a".to_string()).is_ok());
    assert!(store.add_with_id(2, "b".to_string()).is_ok());
    assert!(store.update(2, "b".to_string(), Some(true)).is_ok());
    let exported = store.export();
    assert_eq!(exported, vec![record(Some(1), "a", Some(false)), record(Some(2), "b", Some(true))]);
    store.import(exported.clone());
    let after = store.list();
    for todo in &exported {
        assert!(after.contains(todo));
    }
    assert_eq!(
        after,
        vec![
            record(Some(1), "a", Some(false)),
            record(Some(2), "b", Some(true)),
            record(Some(1), "a", Some(false)),
            record(Some(2), "b", Some(true)),
        ]
    );
}

#[test]
fn export_into_an_empty_store_reproduces_the_records() {
    let mut source = TodoStore::new();
    assert!(source.add_with_id(1, "a".to_string()).is_ok());
    assert!(source.add_with_id(2, "b".to_string()).is_ok());
    let mut target = TodoStore::new();
    target.import(source.export());
    assert_eq!(target.list(), source.list());
}

#[test]
fn list_is_a_snapshot() {
    let mut store = TodoStore::new();
    assert!(store.add_with_id(1, "a".to_string()).is_ok());
    let snapshot = store.list();
    assert_eq!(store.delete(1), Ok(()));
    assert_eq!(snapshot, vec![record(Some(1), "a", Some(false))]);
    assert_eq!(store.list(), Vec::<Todo>::new());
}
