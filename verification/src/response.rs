//! HTTP-style responses: a status code and a JSON-shaped body, together with
//! the decision functions that turn a store outcome into the response owed to
//! the client.

use vstd::prelude::*;
use crate::todo::Todo;

verus! {

/// The body of a response: a created entry, the full listing, a bare
/// acknowledgement (`{"status":"ok"}`), or an error (`{"error": ...}`).
pub enum Body {
    TodoItem(Todo),
    Listing(Vec<Todo>),
    OkStatus,
    ErrorMessage(String),
}

/// A response: an HTTP status code and a body.
pub struct Response {
    pub status: u16,
    pub body: Body,
}

/// The bare-success acknowledgement: 200 with `{"status":"ok"}`.
pub fn ok_response() -> (r: Response)
    ensures
        r.status == 200,
        r.body is OkStatus,
{
    Response { status: 200, body: Body::OkStatus }
}

/// A store failure surfaced to the client: 500 with `{"error": msg}`.
pub fn error_response(msg: String) -> (r: Response)
    ensures
        r.status == 500,
        r.body matches Body::ErrorMessage(m) && m@ == msg@,
{
    Response { status: 500, body: Body::ErrorMessage(msg) }
}

/// Decides the create operation's response from the store's answer: 201 with
/// the created entry when the write succeeded, 500 with the error otherwise.
pub fn create_outcome(todo: Todo, store_ok: bool, err: String) -> (r: Response)
    ensures
        store_ok ==> r.status == 201 && (r.body matches Body::TodoItem(t) && t == todo),
        !store_ok ==> r.status == 500 && (r.body matches Body::ErrorMessage(m) && m@ == err@),
{
    if store_ok {
        Response { status: 201, body: Body::TodoItem(todo) }
    } else {
        Response { status: 500, body: Body::ErrorMessage(err) }
    }
}

/// Decides the update operation's next step from the store's read: when the
/// entry was found, the value to write back (with `completed` flipped) and a
/// 200 acknowledgement; when the read failed, no write and a 500 error.
pub fn toggle_read_outcome(read: Option<Todo>, err: String) -> (r: (Option<Todo>, Response))
    ensures
        read matches Some(t) ==> (r.0 matches Some(w) && w@ == t@.flipped())
            && r.1.status == 200 && r.1.body is OkStatus,
        read is None ==> r.0 is None && r.1.status == 500
            && (r.1.body matches Body::ErrorMessage(m) && m@ == err@),
{
    match read {
        Some(t) => {
            let w = t.toggled();
            (Some(w), Response { status: 200, body: Body::OkStatus })
        }
        None => (None, Response { status: 500, body: Body::ErrorMessage(err) }),
    }
}

} // verus!
