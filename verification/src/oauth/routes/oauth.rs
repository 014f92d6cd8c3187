//! The token endpoint.

use vstd::prelude::*;

use crate::oauth::database::Database;
use crate::oauth::models::{ClientId, ID_LENGTH};
use crate::oauth::primitives::scope::Scope;

verus! {

/// The flow that answers a request for a token.
#[derive(Clone, Copy, Debug, PartialEq, Eq, Structural)]
pub enum TokenFlow {
    /// A refresh token is traded for a new access token.
    Refresh,
    /// An authorization code is traded for an access token.
    AccessToken,
}

/// The flow for a request with the grant type `grant_type`: the refresh flow for
/// `refresh_token`, the access token flow for every other, a missing one included.
pub fn token(grant_type: Option<&str>) -> (flow: TokenFlow)
    ensures
        flow == (if grant_type matches Some(kind) && kind@ == "refresh_token"@ {
            TokenFlow::Refresh
        } else {
            TokenFlow::AccessToken
        }),
{
    match grant_type {
        Some(kind) => if kind.eq("refresh_token") {
            TokenFlow::Refresh
        } else {
            TokenFlow::AccessToken
        },
        None => TokenFlow::AccessToken,
    }
}

/// What the user named `username` has granted to the client written `client_str`.
/// Nothing where no user has the name, where the text is no identifier, or where the
/// user never granted the client anything.
pub fn get_current_authorization(db: &Database, username: &str, client_str: &str) -> (granted: Option<
    Scope,
>)
    requires
        db.wf(),
    ensures
        granted is Some <==> db.names().contains_key(username@) && client_str@.len() == ID_LENGTH
            && db.granted(db.names()[username@], client_str@) is Some,
        granted matches Some(scope) ==> Some(scope@) == db.granted(
            db.names()[username@],
            client_str@,
        ),
{
    let user_record = match db.get_user_by_name(username) {
        Ok(record) => record,
        Err(_) => {
            return None;
        },
    };
    let client_id = match ClientId::from_str(client_str) {
        Ok(id) => id,
        Err(_) => {
            return None;
        },
    };
    proof {
        db.lemma_users();
    }
    match user_record.id() {
        Some(user_id) => db.get_scope(&user_id, &client_id),
        None => None,
    }
}

/// Grants `new_scope` to the client written `client_str` in the name of the user
/// named `username`, on top of what the client had. Nothing changes where no user
/// has the name or the text is no identifier; `true` tells that the grant was made.
pub fn update_authorization(db: &mut Database, username: &str, client_str: &str, new_scope: Scope) -> (updated:
    bool)
    requires
        old(db).wf(),
    ensures
        final(db).wf(),
        final(db).clients() == old(db).clients(),
        final(db).names() == old(db).names(),
        final(db).policy() == old(db).policy(),
        updated == (old(db).names().contains_key(username@) && client_str@.len() == ID_LENGTH),
        updated ==> final(db).users() == old(db).users().insert(
            old(db).names()[username@],
            old(db).users()[old(db).names()[username@]].widened(client_str@, new_scope@),
        ),
        !updated ==> final(db).users() == old(db).users(),
{
    let user_record = match db.get_user_by_name(username) {
        Ok(record) => record,
        Err(_) => {
            return false;
        },
    };
    let client_id = match ClientId::from_str(client_str) {
        Ok(id) => id,
        Err(_) => {
            return false;
        },
    };
    proof {
        db.lemma_users();
    }
    match user_record.id() {
        Some(user_id) => db.update_client_scope(&user_id, client_id, new_scope).is_ok(),
        None => false,
    }
}

} // verus!
