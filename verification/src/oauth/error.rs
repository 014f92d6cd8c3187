//! The errors that a request to the server can end in.

use vstd::prelude::*;

use crate::oauth::database::StoreError;
use crate::oauth::models::InvalidLengthError;
use crate::oauth::primitives::registrar::RegistrarError;

verus! {

/// Why a request failed.
#[allow(inconsistent_fields)]
#[derive(Clone, Copy, Debug, PartialEq, Eq)]
pub enum Error {
    /// The store refused.
    Database { source: StoreError },
    /// What was asked for does not exist.
    NotFound,
    /// A text offered as an identifier is none.
    InvalidKey { source: InvalidLengthError },
    /// The registry of clients refused.
    Registrar { source: RegistrarError },
    /// The user name is taken.
    ResourceConflict,
    /// Something went wrong inside the server.
    InternalError,
}

impl Error {
    /// What is shown of the error.
    pub open spec fn message(self) -> Seq<char> {
        match self {
            Error::Database { .. } => "Database error"@,
            Error::NotFound => "Not found"@,
            Error::InvalidKey { .. } => "Invalid key"@,
            Error::Registrar { .. } => "Client registry error"@,
            Error::InternalError => "Unexpected internal error"@,
            Error::ResourceConflict => "User already exists"@,
        }
    }

    pub fn to_string(&self) -> (text: String)
        ensures
            text@ == self.message(),
    {
        match self {
            Error::Database { .. } => "Database error".to_owned(),
            Error::NotFound => "Not found".to_owned(),
            Error::InvalidKey { .. } => "Invalid key".to_owned(),
            Error::Registrar { .. } => "Client registry error".to_owned(),
            Error::InternalError => "Unexpected internal error".to_owned(),
            Error::ResourceConflict => "User already exists".to_owned(),
        }
    }

    /// The HTTP status that answers the error: 409 for a name that is taken, 500
    /// for everything else.
    pub fn status(&self) -> (code: u16)
        ensures
            code == (if *self == Error::ResourceConflict {
                409u16
            } else {
                500u16
            }),
    {
        match self {
            Error::ResourceConflict => 409,
            _ => 500,
        }
    }

    /// The error of the store as an error of a request: a duplicate is a conflict.
    pub fn from_store(source: StoreError) -> (error: Error)
        ensures
            error == (if source == StoreError::DuplicateRecord {
                Error::ResourceConflict
            } else {
                Error::Database { source }
            }),
    {
        match source {
            StoreError::DuplicateRecord => Error::ResourceConflict,
            _ => Error::Database { source },
        }
    }
}

/// Why a request to a protected resource was turned away.
#[derive(Clone, Debug, PartialEq, Eq)]
pub enum AuthError {
    WrongCredentials,
    MissingCredentials,
    InvalidToken,
    Unexpected(String),
}

impl AuthError {
    /// The HTTP status that answers the error.
    pub fn status(&self) -> (code: u16)
        ensures
            code == (match *self {
                AuthError::WrongCredentials => 401u16,
                AuthError::MissingCredentials => 400u16,
                AuthError::InvalidToken => 400u16,
                AuthError::Unexpected(_) => 500u16,
            }),
    {
        match self {
            AuthError::WrongCredentials => 401,
            AuthError::MissingCredentials => 400,
            AuthError::InvalidToken => 400,
            AuthError::Unexpected(_) => 500,
        }
    }

    /// The message sent with the error. What went wrong unexpectedly is not shown.
    pub fn message(&self) -> (text: &'static str)
        ensures
            text@ == (match *self {
                AuthError::WrongCredentials => "wrong credentials"@,
                AuthError::MissingCredentials => "missing credentials"@,
                AuthError::InvalidToken => "invalid token"@,
                AuthError::Unexpected(_) => "unknown internal error"@,
            }),
    {
        match self {
            AuthError::WrongCredentials => "wrong credentials",
            AuthError::MissingCredentials => "missing credentials",
            AuthError::InvalidToken => "invalid token",
            AuthError::Unexpected(_) => "unknown internal error",
        }
    }
}

} // verus!
