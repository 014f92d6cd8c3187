//! What is handed out about a client.

use vstd::prelude::*;

use crate::oauth::models::{ClientId, InvalidLengthError};

verus! {

/// The name a client shows to users.
#[derive(Clone, Debug, PartialEq, Eq)]
pub struct ClientName {
    pub inner: String,
}

/// A client, named by its identifier.
#[derive(Debug, PartialEq, Eq)]
pub struct AuthClient {
    pub id: ClientId,
}

impl Clone for AuthClient {
    fn clone(&self) -> (copy: Self)
        ensures
            copy == *self,
    {
        AuthClient { id: self.id.clone() }
    }
}

impl AuthClient {
    /// Reads a client from the text of its identifier.
    pub fn from_str(src: &str) -> (parsed: Result<AuthClient, InvalidLengthError>)
        ensures
            parsed is Ok <==> src@.len() == crate::oauth::models::ID_LENGTH,
            parsed matches Ok(client) ==> client.id@ == src@,
            parsed matches Err(e) ==> e.expected == crate::oauth::models::ID_LENGTH && e.actual
                == crate::oauth::primitives::registrar::byte_len(src@),
    {
        match ClientId::from_str(src) {
            Ok(id) => Ok(AuthClient { id }),
            Err(e) => Err(e),
        }
    }
}

} // verus!
