//! Errors of the memory service.

use vstd::prelude::*;

verus! {

/// The kinds of failure the memory service reports.
pub enum Error {
    Storage(String),
    Sqlite(String),
    Json(String),
    Io(String),
    Embedding(String),
    VectorDb(String),
    Config(String),
    NotFound(String),
    InvalidInput(String),
}

/// The message that an error carries.
pub open spec fn error_message(e: Error) -> Seq<char> {
    match e {
        Error::Storage(m) => m@,
        Error::Sqlite(m) => m@,
        Error::Json(m) => m@,
        Error::Io(m) => m@,
        Error::Embedding(m) => m@,
        Error::VectorDb(m) => m@,
        Error::Config(m) => m@,
        Error::NotFound(m) => m@,
        Error::InvalidInput(m) => m@,
    }
}

impl Error {
    pub fn storage(msg: &str) -> (r: Error)
        ensures
            r is Storage,
            error_message(r) == msg@,
    {
        Error::Storage(msg.to_owned())
    }

    pub fn embedding(msg: &str) -> (r: Error)
        ensures
            r is Embedding,
            error_message(r) == msg@,
    {
        Error::Embedding(msg.to_owned())
    }

    pub fn vector_db(msg: &str) -> (r: Error)
        ensures
            r is VectorDb,
            error_message(r) == msg@,
    {
        Error::VectorDb(msg.to_owned())
    }

    pub fn config(msg: &str) -> (r: Error)
        ensures
            r is Config,
            error_message(r) == msg@,
    {
        Error::Config(msg.to_owned())
    }

    pub fn not_found(msg: &str) -> (r: Error)
        ensures
            r is NotFound,
            error_message(r) == msg@,
    {
        Error::NotFound(msg.to_owned())
    }

    pub fn invalid_input(msg: &str) -> (r: Error)
        ensures
            r is InvalidInput,
            error_message(r) == msg@,
    {
        Error::InvalidInput(msg.to_owned())
    }

    /// The message that this error carries.
    pub fn message(&self) -> (r: String)
        ensures
            r@ == error_message(*self),
    {
        match self {
            Error::Storage(m) => m.clone(),
            Error::Sqlite(m) => m.clone(),
            Error::Json(m) => m.clone(),
            Error::Io(m) => m.clone(),
            Error::Embedding(m) => m.clone(),
            Error::VectorDb(m) => m.clone(),
            Error::Config(m) => m.clone(),
            Error::NotFound(m) => m.clone(),
            Error::InvalidInput(m) => m.clone(),
        }
    }
}

} // verus!
