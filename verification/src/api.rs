//! The service's requests: what each does to the store and what it replies.
//!
//! A reply is a status code and a body. Turning a body into bytes, and
//! everything that reads or writes a file, is left to the caller.

use crate::error::StoreError;
use crate::ident::is_random_uuid;
use crate::model::StoreView;
use crate::store::TodoStore;
use crate::todo::{Todo, TodoView};
use vstd::prelude::*;

verus! {

/// The request succeeded.
pub const OK: u16 = 200;

/// A record was created.
pub const CREATED: u16 = 201;

/// The request succeeded and the reply has no body.
pub const NO_CONTENT: u16 = 204;

/// No record carries the identifier that the request named.
pub const NOT_FOUND: u16 = 404;

/// The request failed on the service's side.
pub const INTERNAL_SERVER_ERROR: u16 = 500;

/// What a reply carries.
#[derive(Debug, PartialEq, Eq)]
pub enum Body {
    /// Nothing.
    Empty,
    /// Plain text.
    Text(String),
    /// One record, to be sent as a JSON object.
    Todo(Todo),
    /// Records in order, to be sent as a JSON array.
    Todos(Vec<Todo>),
}

/// A body as contracts see it.
pub enum BodyView {
    Empty,
    Text(Seq<char>),
    Todo(TodoView),
    Todos(Seq<TodoView>),
}

impl View for Body {
    type V = BodyView;

    open spec fn view(&self) -> BodyView {
        match self {
            Body::Empty => BodyView::Empty,
            Body::Text(text) => BodyView::Text(text@),
            Body::Todo(todo) => BodyView::Todo(todo@),
            Body::Todos(todos) => BodyView::Todos(todos.deep_view()),
        }
    }
}

/// The answer to one request.
#[derive(Debug, PartialEq, Eq)]
pub struct Reply {
    pub status: u16,
    pub body: Body,
}

/// A reply as contracts see it.
pub struct ReplyView {
    pub status: u16,
    pub body: BodyView,
}

impl View for Reply {
    type V = ReplyView;

    open spec fn view(&self) -> ReplyView {
        ReplyView { status: self.status, body: self.body@ }
    }
}

impl StoreError {
    /// The status code under which this failure is reported: 404 where a
    /// record was not found, 500 for everything else.
    pub open spec fn status_code(self) -> u16 {
        match self {
            StoreError::NotFound => NOT_FOUND,
            _ => INTERNAL_SERVER_ERROR,
        }
    }

    /// The status code under which this failure is reported.
    pub fn status(&self) -> (code: u16)
        ensures
            code == self.status_code(),
    {
        match self {
            StoreError::NotFound => NOT_FOUND,
            _ => INTERNAL_SERVER_ERROR,
        }
    }
}

impl ReplyView {
    /// The reply that reports `error`: its status code and its text.
    pub open spec fn failure(error: StoreError) -> ReplyView {
        ReplyView { status: error.status_code(), body: BodyView::Text(error.text()) }
    }

    /// The reply to a request for all records.
    pub open spec fn listing(store: StoreView) -> ReplyView {
        ReplyView { status: OK, body: BodyView::Todos(store.todos) }
    }

    /// The reply to a request that adds `task` under `id`.
    pub open spec fn creation(store: StoreView, id: u128, task: Seq<char>) -> ReplyView {
        if store.seen.contains(id) {
            ReplyView::failure(StoreError::IdTaken)
        } else {
            ReplyView { status: CREATED, body: BodyView::Todo(TodoView::created(id, task)) }
        }
    }

    /// The reply to a request that overwrites the record under `id`.
    pub open spec fn revision(
        store: StoreView,
        id: u128,
        task: Seq<char>,
        completed: Option<bool>,
    ) -> ReplyView {
        if store.holds(id) {
            ReplyView {
                status: OK,
                body: BodyView::Todo(TodoView { id: Some(id), task, completed }),
            }
        } else {
            ReplyView::failure(StoreError::NotFound)
        }
    }

    /// The reply to a request that deletes the record under `id`.
    pub open spec fn removal(store: StoreView, id: u128) -> ReplyView {
        if store.holds(id) {
            ReplyView { status: NO_CONTENT, body: BodyView::Empty }
        } else {
            ReplyView::failure(StoreError::NotFound)
        }
    }

    /// The reply to an export request, given how writing the file went.
    pub open spec fn download(outcome: Result<(), StoreError>) -> ReplyView {
        match outcome {
            Ok(_) => ReplyView {
                status: OK,
                body: BodyView::Text("Tasks downloaded as tasks.json"@),
            },
            Err(error) => ReplyView::failure(error),
        }
    }

    /// The reply to an import request, given what reading the upload gave.
    pub open spec fn upload(payload: Result<Seq<TodoView>, StoreError>) -> ReplyView {
        match payload {
            Ok(_) => ReplyView {
                status: OK,
                body: BodyView::Text("Tasks uploaded successfully"@),
            },
            Err(error) => ReplyView::failure(error),
        }
    }
}

impl Reply {
    /// The reply that reports `error`.
    pub fn failure(error: StoreError) -> (reply: Reply)
        ensures
            reply@ == ReplyView::failure(error),
    {
        Reply { status: error.status(), body: Body::Text(error.message()) }
    }
}

/// Lists all records: status 200 and the records in the order in which they
/// came.
pub fn get_todos(store: &TodoStore) -> (reply: Reply)
    ensures
        reply@ == ReplyView::listing(store@),
{
    Reply { status: OK, body: Body::Todos(store.list()) }
}

/// Adds a record for `task` under the identifier `id`: status 201 and the
/// new record, or status 500 where the store has seen `id` before.
pub fn add_todo_with_id(store: &mut TodoStore, id: u128, task: String) -> (reply: Reply)
    ensures
        reply@ == ReplyView::creation(old(store)@, id, task@),
        old(store)@.seen.contains(id) ==> final(store)@ == old(store)@,
        !old(store)@.seen.contains(id) ==> final(store)@ == old(store)@.add(id, task@),
{
    match store.add_with_id(id, task) {
        Ok(todo) => Reply { status: CREATED, body: Body::Todo(todo) },
        Err(error) => Reply::failure(error),
    }
}

/// Adds a record for `task` under a freshly drawn random UUID.
///
/// Whatever identifier is drawn, the store and the reply are those of
/// `add_todo_with_id` for it: status 201 and the new record where the store
/// has not seen the identifier, status 500 and an unchanged store where it
/// has. A store that has seen no identifier with the marks of a random UUID,
/// such as a new one, always answers 201.
pub fn add_todo(store: &mut TodoStore, task: String) -> (reply: Reply)
    ensures
        (forall|id: u128| #[trigger] is_random_uuid(id) ==> !old(store)@.seen.contains(id))
            ==> reply.status == CREATED,
        exists|id: u128|
            #![trigger is_random_uuid(id)]
            is_random_uuid(id) && reply@ == ReplyView::creation(old(store)@, id, task@),
        match reply.body {
            Body::Todo(todo) => {
                &&& todo@.id matches Some(id)
                &&& is_random_uuid(id)
                &&& !old(store)@.seen.contains(id)
                &&& !old(store)@.holds(id)
                &&& reply@ == ReplyView::creation(old(store)@, id, task@)
                &&& final(store)@ == old(store)@.add(id, task@)
            },
            _ => {
                &&& reply@ == ReplyView::failure(StoreError::IdTaken)
                &&& final(store)@ == old(store)@
                &&& exists|id: u128| #[trigger] is_random_uuid(id) && old(store)@.seen.contains(id)
            },
        },
{
    match store.add(task) {
        Ok(todo) => Reply { status: CREATED, body: Body::Todo(todo) },
        Err(error) => Reply::failure(error),
    }
}

/// Overwrites the task and the completion flag of the first record under
/// `id`: status 200 and the record as it then is, or status 404 and an
/// unchanged store where no record carries `id`.
pub fn update_todo(
    store: &mut TodoStore,
    id: u128,
    task: String,
    completed: Option<bool>,
) -> (reply: Reply)
    ensures
        reply@ == ReplyView::revision(old(store)@, id, task@, completed),
        final(store)@ == old(store)@.update(id, task@, completed),
{
    match store.update(id, task, completed) {
        Ok(todo) => Reply { status: OK, body: Body::Todo(todo) },
        Err(error) => Reply::failure(error),
    }
}

/// Deletes the records under `id`: status 204 and no body, or status 404
/// and an unchanged store where no record carries `id`.
pub fn delete_todo(store: &mut TodoStore, id: u128) -> (reply: Reply)
    ensures
        reply@ == ReplyView::removal(old(store)@, id),
        old(store)@.holds(id) ==> final(store)@ == old(store)@.delete(id),
        !old(store)@.holds(id) ==> final(store)@ == old(store)@,
{
    match store.delete(id) {
        Ok(_) => Reply { status: NO_CONTENT, body: Body::Empty },
        Err(error) => Reply::failure(error),
    }
}

/// Answers an export request once the caller has tried to write the file:
/// status 200 and a confirmation, or the failure's status and text.
pub fn download_tasks(outcome: Result<(), StoreError>) -> (reply: Reply)
    ensures
        reply@ == ReplyView::download(outcome),
{
    match outcome {
        Ok(_) => Reply {
            status: OK,
            body: Body::Text("Tasks downloaded as tasks.json".to_owned()),
        },
        Err(error) => Reply::failure(error),
    }
}

/// Takes in an upload once the caller has read it. Where reading gave
/// records, all of them are appended and the reply is status 200 and a
/// confirmation. Where it failed, the store stays as it is and the reply
/// reports the failure.
pub fn upload_tasks(store: &mut TodoStore, payload: Result<Vec<Todo>, StoreError>) -> (reply:
    Reply)
    ensures
        match payload {
            Ok(records) => {
                &&& final(store)@ == old(store)@.import(records.deep_view())
                &&& reply@ == ReplyView::upload(Ok(records.deep_view()))
            },
            Err(error) => {
                &&& final(store)@ == old(store)@
                &&& reply@ == ReplyView::upload(Err(error))
            },
        },
{
    match payload {
        Ok(records) => {
            store.import(records);
            Reply { status: OK, body: Body::Text("Tasks uploaded successfully".to_owned()) }
        },
        Err(error) => Reply::failure(error),
    }
}

} // verus!
