use std::sync::{Arc, Mutex};
use todo_store::api::{add_todo, Body};
use todo_store::store::TodoStore;

/// One add by one caller, under the lock that all callers share.
fn add_as_caller(store: &Arc<Mutex<TodoStore>>, task: &str) -> u128 {
    let reply = {
        let mut guard = store.lock().unwrap();
        add_todo(&mut guard, task.to_string())
    };
    assert_eq!(reply.status, 201);
    match reply.body {
        Body::Todo(todo) => {
            assert_eq!(todo.task, task);
            assert_eq!(todo.completed, Some(false));
            todo.id.unwrap()
        },
        other => panic!("expected a record, got {:?}", other),
    }
}

#[test]
fn interleaved_adds_get_distinct_ids_and_all_appear() {
    let callers: usize = 8;
    let per_caller: usize = 25;
    let store = Arc::new(Mutex::new(TodoStore::new()));
    let handles: Vec<Arc<Mutex<TodoStore>>> = (0..callers).map(|_| Arc::clone(&store)).collect();
    let mut done = vec![0usize; callers];
    let mut all_ids: Vec<u128> = Vec::new();
    for step in 0..callers * per_caller {
        // The callers are served in an order that mixes them and reaches
        // each of them once in every round.
        let caller = (step * 3 + step / callers) % callers;
        let task = format!("caller {} task {}", caller, done[caller]);
        all_ids.push(add_as_caller(&handles[caller], &task));
        done[caller] += 1;
    }
    assert_eq!(all_ids.len(), callers * per_caller);
    let mut sorted = all_ids.clone();
    sorted.sort();
    sorted.dedup();
    assert_eq!(sorted.len(), callers * per_caller);

    let listed = store.lock().unwrap().list();
    assert_eq!(listed.len(), callers * per_caller);
    for (place, id) in all_ids.iter().enumerate() {
        assert_eq!(listed[place].id, Some(*id));
        assert_eq!(listed.iter().filter(|t| t.id == Some(*id)).count(), 1);
    }
    for caller in 0..callers {
        let tasks: Vec<String> = listed
            .iter()
            .filter(|t| t.task.starts_with(&format!("caller {} ", caller)))
            .map(|t| t.task.clone())
            .collect();
        let expected: Vec<String> =
            (0..per_caller).map(|n| format!("caller {} task {}", caller, n)).collect();
        assert_eq!(tasks, expected);
    }
}
