//! Registering clients.

use vstd::prelude::*;

use crate::oauth::database::{described_client, Database, StoreError, SECRET_LENGTH};
use crate::oauth::primitives::generator::is_safe_text;
use crate::oauth::error::Error;
use crate::oauth::models::ID_LENGTH;
use crate::oauth::primitives::registrar::normalized_url;

verus! {

/// The kind of client a registration asks for.
#[derive(Clone, Copy, Debug, PartialEq, Eq, Structural)]
pub enum ClientType {
    Public,
    Confidential,
}

impl ClientType {
    /// Reads the kind from the word of the form: `public` or `confidential`.
    pub fn from_str(word: &str) -> (kind: Option<ClientType>)
        ensures
            kind == (if word@ == "public"@ {
                Some(ClientType::Public)
            } else if word@ == "confidential"@ {
                Some(ClientType::Confidential)
            } else {
                None
            }),
    {
        if word.eq("public") {
            Some(ClientType::Public)
        } else if word.eq("confidential") {
            Some(ClientType::Confidential)
        } else {
            None
        }
    }
}

/// What the registration form holds.
#[derive(Clone, Debug)]
pub struct ClientForm {
    pub name: String,
    pub redirect_uri: String,
    pub kind: ClientType,
}

/// What a registration hands out.
#[derive(Clone, Debug, PartialEq, Eq)]
pub struct ClientResponse {
    pub client_id: String,
    pub client_secret: Option<String>,
}

/// Registers the client described in `form`, with an empty default scope. A
/// confidential client is handed its secret, a public one none.
///
/// An empty name and a text that is no absolute URL are refused as invalid input.
/// The identifier is drawn at random; should it be taken, which is next to
/// impossible, the registration is refused as a duplicate. In every other case the
/// client is registered.
pub fn post_client(db: &mut Database, form: &ClientForm) -> (registered: Result<
    ClientResponse,
    Error,
>)
    requires
        old(db).wf(),
    ensures
        final(db).wf(),
        final(db).users() == old(db).users(),
        final(db).names() == old(db).names(),
        final(db).policy() == old(db).policy(),
        (form.name@.len() == 0 || normalized_url(form.redirect_uri@) is None) <==> registered
            == Err::<ClientResponse, Error>(Error::Database { source: StoreError::InvalidInput }),
        registered matches Err(error) ==> error == (Error::Database {
            source: StoreError::InvalidInput,
        }) || error == (Error::Database { source: StoreError::DuplicateRecord }),
        registered == Err::<ClientResponse, Error>(
            Error::Database { source: StoreError::DuplicateRecord },
        ) ==> exists|id: Seq<char>|
            id.len() == ID_LENGTH && is_safe_text(id) && #[trigger] old(db).clients().contains_key(
                id,
            ),
        registered matches Ok(response) ==> {
            let secret = match response.client_secret {
                Some(text) => Some(text@),
                None => None,
            };
            let plain = described_client(
                response.client_id@,
                secret,
                form.name@,
                normalized_url(form.redirect_uri@),
                Seq::<char>::empty(),
            );
            &&& response.client_id@.len() == ID_LENGTH
            &&& secret is Some <==> form.kind == ClientType::Confidential
            &&& secret matches Some(text) ==> text.len() == SECRET_LENGTH && is_safe_text(text)
            &&& plain is Some
            &&& old(db).registers_client(*final(db), response.client_id@, form.name@, plain->0)
        },
        registered is Err ==> final(db).clients() == old(db).clients(),
{
    proof {
        reveal_strlit("");
        assert(""@ =~= Seq::<char>::empty());
    }
    let registered = match form.kind {
        ClientType::Public => db.register_public_client(
            form.name.as_str(),
            form.redirect_uri.as_str(),
            "",
        ),
        ClientType::Confidential => db.register_confidential_client(
            form.name.as_str(),
            form.redirect_uri.as_str(),
            "",
        ),
    };
    match registered {
        Ok((client_id, client_secret)) => Ok(ClientResponse { client_id, client_secret }),
        Err(source) => Err(Error::Database { source }),
    }
}

} // verus!
