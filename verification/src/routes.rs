//! What the HTTP handlers answer, given how the database call went.

use vstd::prelude::*;

verus! {

/// The HTTP statuses the server answers with.
#[derive(Clone, Copy, Debug, PartialEq, Eq)]
pub enum Status {
    Success,
    NotFound,
    Unauthorized,
    ServerError,
}

impl Status {
    /// The numeric HTTP status code.
    pub fn code(&self) -> (c: u16)
        ensures
            c == match self {
                Status::Success => 200u16,
                Status::NotFound => 404u16,
                Status::Unauthorized => 401u16,
                Status::ServerError => 500u16,
            },
    {
        match self {
            Status::Success => 200,
            Status::NotFound => 404,
            Status::Unauthorized => 401,
            Status::ServerError => 500,
        }
    }
}

/// Posting an event: once it is stored under an id, the answer is OK and
/// the id goes to the resolver; where storing failed, the answer is a
/// server error and nothing is queued.
pub fn post_event_reply(stored: Option<i64>) -> (r: (Status, Option<i64>))
    ensures
        r == match stored {
            Some(id) => (Status::Success, Some(id)),
            None => (Status::ServerError, None),
        },
{
    match stored {
        Some(id) => (Status::Success, Some(id)),
        None => (Status::ServerError, None),
    }
}

/// Listing (series, pending opens): the rows, or a server error where the
/// query failed.
pub fn list_reply<T>(rows: Option<T>) -> (r: Result<T, Status>)
    ensures
        r == match rows {
            Some(v) => Ok::<T, Status>(v),
            None => Err(Status::ServerError),
        },
{
    match rows {
        Some(v) => Ok(v),
        None => Err(Status::ServerError),
    }
}

/// Fetching one series by id: the series, or not-found where it cannot be
/// read.
pub fn get_series_reply<T>(row: Option<T>) -> (r: Result<T, Status>)
    ensures
        r == match row {
            Some(v) => Ok::<T, Status>(v),
            None => Err(Status::NotFound),
        },
{
    match row {
        Some(v) => Ok(v),
        None => Err(Status::NotFound),
    }
}

/// A write (queueing or acknowledging a pending open): OK where it went
/// through, a server error where it failed.
pub fn write_reply(done: bool) -> (r: Status)
    ensures
        r == if done { Status::Success } else { Status::ServerError },
{
    if done {
        Status::Success
    } else {
        Status::ServerError
    }
}

/// A request without the right token is answered `Unauthorized`; one with
/// it is passed on.
pub fn auth_reply(authorized: bool) -> (r: Option<Status>)
    ensures
        r == if authorized { None } else { Some(Status::Unauthorized) },
{
    if authorized {
        None
    } else {
        Some(Status::Unauthorized)
    }
}

} // verus!
