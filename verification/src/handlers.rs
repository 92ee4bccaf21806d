use vstd::prelude::*;

use crate::Todo;
use crate::TodoView;
use crate::codec::chars_to_string;
use crate::codec::list_response_json;
use crate::codec::render_list_response;
use crate::codec::render_todo_response;
use crate::codec::str_to_chars;
use crate::codec::todo_response_json;
use crate::parse::parse_new_todo;
use crate::parse::parse_new_todo_exec;
use crate::parse::parse_update_request;
use crate::parse::parse_update_request_exec;
use crate::store::Store;
use crate::store::create_model;
use crate::store::delete_model;
use crate::store::has_id;
use crate::store::lookup;
use crate::store::update_model;
use crate::views_of;

verus! {

/// What a handler answers: a status code and a body. A 404 carries the plain
/// text "Todo not found", a 400 the plain text "Invalid request body", and
/// every other reply a JSON body (empty on 204).
pub struct HttpReply {
    pub status: u16,
    pub body: String,
}

/// The 404 body.
pub open spec fn not_found_text() -> Seq<char> {
    "Todo not found"@
}

/// The 400 body for a request whose JSON does not match the accepted shape.
pub open spec fn bad_request_text() -> Seq<char> {
    "Invalid request body"@
}

fn not_found_reply() -> (r: HttpReply)
    ensures
        r.status == 404,
        r.body@ == not_found_text(),
{
    HttpReply { status: 404, body: "Todo not found".to_owned() }
}

fn bad_request_reply() -> (r: HttpReply)
    ensures
        r.status == 400,
        r.body@ == bad_request_text(),
{
    HttpReply { status: 400, body: "Invalid request body".to_owned() }
}

/// Lists every record: 200 with all records as JSON, in insertion order.
pub fn get_todos(store: &Store) -> (r: HttpReply)
    ensures
        r.status == 200,
        r.body@ == list_response_json(store@),
{
    let items = store.list();
    proof {
        assert(views_of(items@) =~= store@);
    }
    let body = render_list_response(&items);
    HttpReply { status: 200, body }
}

/// Fetches one record by id: 200 with the record as JSON when the id
/// resolves, else 404.
pub fn get_todo_by_id(store: &Store, todo_id: &str) -> (r: HttpReply)
    requires
        store.wf(),
    ensures
        has_id(store@, todo_id@) ==> r.status == 200 && r.body@ == todo_response_json(
            lookup(store@, todo_id@),
        ),
        !has_id(store@, todo_id@) ==> r.status == 404 && r.body@ == not_found_text(),
{
    match store.get(todo_id) {
        Some(t) => {
            let body = render_todo_response(&t);
            HttpReply { status: 200, body }
        },
        None => not_found_reply(),
    }
}

/// Creates a record from a creation body: 201 with the new record as JSON
/// when the body matches, else 400 with the store unchanged.
pub fn create_todo(store: &mut Store, body: &str) -> (r: HttpReply)
    requires
        old(store).wf(),
    ensures
        final(store).wf(),
        match parse_new_todo(body@) {
            Some(task) => {
                &&& r.status == 201
                &&& final(store)@.len() == old(store)@.len() + 1
                &&& final(store)@ == create_model(old(store)@, final(store)@.last().id, task)
                &&& !has_id(old(store)@, final(store)@.last().id)
                &&& r.body@ == todo_response_json(final(store)@.last())
            },
            None => r.status == 400 && final(store)@ == old(store)@ && r.body@
                == bad_request_text(),
        },
{
    let chars = str_to_chars(body);
    match parse_new_todo_exec(&chars) {
        Some(task_chars) => {
            let task = chars_to_string(task_chars);
            let created = store.create(task.as_str());
            let reply_body = render_todo_response(&created);
            HttpReply { status: 201, body: reply_body }
        },
        None => bad_request_reply(),
    }
}

/// Updates a record from an update body: 200 with the updated record as JSON
/// when the body matches and the id resolves; 404 when the body matches and
/// the id does not; 400 when the body does not match. The store changes only
/// in the first case.
pub fn update_todo(store: &mut Store, todo_id: &str, body: &str) -> (r: HttpReply)
    requires
        old(store).wf(),
    ensures
        final(store).wf(),
        match parse_update_request(body@) {
            Some(tc) => {
                &&& (has_id(old(store)@, todo_id@) ==> r.status == 200 && final(store)@
                    == update_model(old(store)@, todo_id@, tc.0, tc.1) && r.body@
                    == todo_response_json(TodoView { id: todo_id@, task: tc.0, completed: tc.1 }))
                &&& (!has_id(old(store)@, todo_id@) ==> r.status == 404 && final(store)@ == old(
                    store,
                )@ && r.body@ == not_found_text())
            },
            None => r.status == 400 && final(store)@ == old(store)@ && r.body@
                == bad_request_text(),
        },
{
    let chars = str_to_chars(body);
    match parse_update_request_exec(&chars) {
        Some((task_chars, completed)) => {
            let task = chars_to_string(task_chars);
            match store.update(todo_id, task.as_str(), completed) {
                Some(updated) => {
                    let reply_body = render_todo_response(&updated);
                    HttpReply { status: 200, body: reply_body }
                },
                None => not_found_reply(),
            }
        },
        None => bad_request_reply(),
    }
}

/// Deletes a record by id: 204 with an empty body when the id resolves, else
/// 404 with the store unchanged.
pub fn delete_todo(store: &mut Store, todo_id: &str) -> (r: HttpReply)
    requires
        old(store).wf(),
    ensures
        final(store).wf(),
        has_id(old(store)@, todo_id@) ==> r.status == 204 && r.body@ == Seq::<char>::empty()
            && final(store)@ == delete_model(old(store)@, todo_id@),
        !has_id(old(store)@, todo_id@) ==> r.status == 404 && r.body@ == not_found_text()
            && final(store)@ == old(store)@,
{
    if store.delete(todo_id) {
        HttpReply { status: 204, body: String::new() }
    } else {
        not_found_reply()
    }
}

} // verus!
