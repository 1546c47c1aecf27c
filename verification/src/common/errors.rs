use vstd::prelude::*;

verus! {

/// Failures of the file database.
#[derive(Debug, Clone, Copy, PartialEq, Eq, Structural)]
pub enum DataBaseError {
    InternalError,
    ConnectionError,
    NotFoundError,
}

/// Failures of the background job queue.
#[derive(Debug, Clone, Copy, PartialEq, Eq, Structural)]
pub enum JobError {
    InternalError,
    ConnectionError,
    TaskFailed,
}

impl DataBaseError {
    /// The human-readable text of each failure.
    pub open spec fn spec_message(self) -> Seq<char> {
        match self {
            DataBaseError::InternalError => "DataBase Internal Error"@,
            DataBaseError::ConnectionError => "DataBase Connection Error"@,
            DataBaseError::NotFoundError => "File not found Error"@,
        }
    }

    /// The text that the error displays.
    pub fn message(&self) -> (text: String)
        ensures
            text@ == self.spec_message(),
    {
        match self {
            DataBaseError::InternalError => String::from_str("DataBase Internal Error"),
            DataBaseError::ConnectionError => String::from_str("DataBase Connection Error"),
            DataBaseError::NotFoundError => String::from_str("File not found Error"),
        }
    }
}

impl JobError {
    /// The human-readable text of each failure.
    pub open spec fn spec_message(self) -> Seq<char> {
        match self {
            JobError::InternalError => "Job Internal Error"@,
            JobError::ConnectionError => "Job Connection Error"@,
            JobError::TaskFailed => "Job failed Error"@,
        }
    }

    /// The text that the error displays.
    pub fn message(&self) -> (text: String)
        ensures
            text@ == self.spec_message(),
    {
        match self {
            JobError::InternalError => String::from_str("Job Internal Error"),
            JobError::ConnectionError => String::from_str("Job Connection Error"),
            JobError::TaskFailed => String::from_str("Job failed Error"),
        }
    }
}

} // verus!
