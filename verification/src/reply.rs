//! What a request handler answers, and what it learns of a failed database call.

use vstd::prelude::*;

verus! {

/// The answer to a request: a status and, for some, a body.
#[derive(Debug, PartialEq, Eq)]
pub enum Reply<T> {
    /// 200 with no body.
    Success,
    /// 200 with a JSON body.
    Json(T),
    /// 409; the body names the field that clashes with a stored row.
    Conflict(Field),
    /// 403.
    Forbidden,
    /// 404.
    NotFound,
    /// 401.
    Unauthorized,
    /// 500.
    InternalError,
}

impl<T> Reply<T> {
    pub open spec fn spec_status_code(&self) -> u16 {
        match self {
            Reply::Success => 200,
            Reply::Json(_) => 200,
            Reply::Conflict(_) => 409,
            Reply::Forbidden => 403,
            Reply::NotFound => 404,
            Reply::Unauthorized => 401,
            Reply::InternalError => 500,
        }
    }

    /// The HTTP status code of this answer.
    #[verifier::when_used_as_spec(spec_status_code)]
    pub fn status_code(&self) -> (code: u16)
        ensures
            code == self.spec_status_code(),
    {
        match self {
            Reply::Success => 200,
            Reply::Json(_) => 200,
            Reply::Conflict(_) => 409,
            Reply::Forbidden => 403,
            Reply::NotFound => 404,
            Reply::Unauthorized => 401,
            Reply::InternalError => 500,
        }
    }
}

/// A field of a request that can clash with a stored row.
#[derive(Debug, PartialEq, Eq)]
pub enum Field {
    /// The name of a recipe.
    Name,
}

impl Field {
    /// The field's name as a 409 answer's body gives it.
    pub fn label(&self) -> (label: String)
        ensures
            label@ == "name"@,
    {
        match self {
            Field::Name => String::from_str("name"),
        }
    }
}

/// What the library reads of a failed database call: the SQLSTATE code that
/// the database server sent, when the failure came from the server.
#[derive(Debug, PartialEq, Eq)]
pub enum StoreError {
    /// The server refused the statement, with this SQLSTATE code if it sent one.
    Database(Option<String>),
    /// Any other failure (connection, protocol, decoding, ...).
    Other,
}

/// The answer to a request whose only work is one database write:
/// 200 when it succeeded, 500 when it failed.
pub fn reply_done<E>(outcome: Result<(), E>) -> (reply: Reply<()>)
    ensures
        outcome is Ok ==> reply is Success,
        outcome is Err ==> reply is InternalError,
{
    match outcome {
        Ok(()) => Reply::Success,
        Err(_) => Reply::InternalError,
    }
}

/// The answer to a request whose only work is one database read: the value
/// read, as JSON, or 500 when the read failed.
pub fn reply_json<T, E>(outcome: Result<T, E>) -> (reply: Reply<T>)
    ensures
        match outcome {
            Ok(value) => reply == Reply::Json(value),
            Err(_) => reply is InternalError,
        },
{
    match outcome {
        Ok(value) => Reply::Json(value),
        Err(_) => Reply::InternalError,
    }
}

/// The next step of a handler that works through a list of items one
/// database call at a time and stops at the first failure.
#[derive(Debug, PartialEq, Eq)]
pub enum Progress<E> {
    /// Work on item `i` next.
    Next(usize),
    /// Every item is done.
    Done,
    /// The work on an item failed with this error: stop and pass it on.
    Failed(E),
}

} // verus!
