//! The answers of the storage and task routes.
use vstd::prelude::*;

verus! {

/// The HTTP statuses the routes answer with.
#[derive(Debug, Clone, Copy, PartialEq, Eq, Structural)]
pub enum HttpStatus {
    Success,
    Created,
    BadRequest,
    NotFound,
    Conflict,
}

impl HttpStatus {
    /// The numeric code of each status.
    pub open spec fn spec_code(self) -> u16 {
        match self {
            HttpStatus::Success => 200,
            HttpStatus::Created => 201,
            HttpStatus::BadRequest => 400,
            HttpStatus::NotFound => 404,
            HttpStatus::Conflict => 409,
        }
    }

    /// The numeric code of the status.
    pub fn code(&self) -> (code: u16)
        ensures
            code == self.spec_code(),
    {
        match self {
            HttpStatus::Success => 200,
            HttpStatus::Created => 201,
            HttpStatus::BadRequest => 400,
            HttpStatus::NotFound => 404,
            HttpStatus::Conflict => 409,
        }
    }
}

/// The answer to an upload: `Created` with the new file's id, or `Conflict`
/// with the reason it was refused.
pub fn upload_reply(outcome: Result<String, String>) -> (reply: (HttpStatus, String))
    ensures
        match outcome {
            Ok(id) => reply.0 == HttpStatus::Created && reply.1@ == id@,
            Err(message) => reply.0 == HttpStatus::Conflict && reply.1@ == message@,
        },
{
    match outcome {
        Ok(file_id) => (HttpStatus::Created, file_id),
        Err(message) => (HttpStatus::Conflict, message),
    }
}

/// The answer to a download: `Ok` with the file, or `NotFound` with nothing.
pub fn retrieve_reply<T>(outcome: Result<T, ()>) -> (reply: (HttpStatus, Option<T>))
    ensures
        match outcome {
            Ok(file) => reply.0 == HttpStatus::Success && reply.1 == Some(file),
            Err(()) => reply.0 == HttpStatus::NotFound && reply.1 is None,
        },
{
    match outcome {
        Ok(file) => (HttpStatus::Success, Some(file)),
        Err(()) => (HttpStatus::NotFound, None),
    }
}

/// The answer to queuing a job: `Created` with the job's id, or
/// `BadRequest` with `error`.
pub fn produce_task_reply(pushed: Result<String, ()>) -> (reply: (HttpStatus, String))
    ensures
        match pushed {
            Ok(id) => reply.0 == HttpStatus::Created && reply.1@ == id@,
            Err(()) => reply.0 == HttpStatus::BadRequest && reply.1@ == "error"@,
        },
{
    match pushed {
        Ok(job_id) => (HttpStatus::Created, job_id),
        Err(()) => (HttpStatus::BadRequest, String::from_str("error")),
    }
}

/// The answer to asking after a job: `BadRequest` with `404` when the
/// broker could not be asked, `Ok` with `ok` when it knows the job. A broker
/// that answers without the job is not expected, and is left out.
pub fn check_task_reply<T>(fetched: Result<Option<T>, ()>) -> (reply: (HttpStatus, &'static str))
    requires
        !(fetched matches Ok(None)),
    ensures
        match fetched {
            Err(()) => reply.0 == HttpStatus::BadRequest && reply.1@ == "404"@,
            Ok(_) => reply.0 == HttpStatus::Success && reply.1@ == "ok"@,
        },
{
    match fetched {
        Err(()) => (HttpStatus::BadRequest, "404"),
        Ok(_) => (HttpStatus::Success, "ok"),
    }
}

} // verus!
