//! The errors a page handler answers with, and the HTTP status and text
//! of each.
use vstd::prelude::*;

verus! {

/// A failed request. The database, template and internal errors carry
/// the text of the underlying error.
#[derive(Debug)]
pub enum AppError {
    Db(String),
    Template(String),
    NotFound(String),
    BadRequest(String),
    Internal(String),
}

/// The status code and body of the answer to an error.
pub open spec fn response_spec(e: AppError) -> (u16, Seq<char>) {
    match e {
        AppError::Db(m) => (500, "Database error: "@ + m@),
        AppError::Template(m) => (500, "Template error: "@ + m@),
        AppError::NotFound(m) => (404, m@),
        AppError::BadRequest(m) => (400, m@),
        AppError::Internal(m) => (500, "Internal error: "@ + m@),
    }
}

impl AppError {
    /// The HTTP status and the plain-text body that answer this error.
    pub fn status_and_message(&self) -> (res: (u16, String))
        ensures
            (res.0, res.1@) == response_spec(*self),
    {
        match self {
            AppError::Db(m) => {
                let mut s: String = "Database error: ".to_owned();
                s.append(m.as_str());
                (500, s)
            },
            AppError::Template(m) => {
                let mut s: String = "Template error: ".to_owned();
                s.append(m.as_str());
                (500, s)
            },
            AppError::NotFound(m) => (404, m.clone()),
            AppError::BadRequest(m) => (400, m.clone()),
            AppError::Internal(m) => {
                let mut s: String = "Internal error: ".to_owned();
                s.append(m.as_str());
                (500, s)
            },
        }
    }
}

} // verus!
