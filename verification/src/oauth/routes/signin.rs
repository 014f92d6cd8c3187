//! Signing in.

use vstd::prelude::*;

use super::{Callback, LoginForm};
use crate::oauth::database::resource::user::AuthUser;
use crate::oauth::database::{sign_in_result, Database, StoreError};
use crate::oauth::error::Error;

verus! {

/// How an attempt to sign in ends.
#[derive(Debug, PartialEq, Eq)]
pub enum SignIn {
    /// The name and the password do not belong together.
    Unauthorized,
    /// The user is signed in and sent on to `location`.
    SignedIn { user: AuthUser, location: String },
}

impl SignIn {
    /// The HTTP status that answers the attempt: 401 where it is turned away, 303
    /// where the user is sent on.
    pub fn status(&self) -> (code: u16)
        ensures
            code == (if *self is Unauthorized {
                401u16
            } else {
                303u16
            }),
    {
        match self {
            SignIn::Unauthorized => 401,
            SignIn::SignedIn { .. } => 303,
        }
    }
}

/// Where a user is sent after signing in: to the callback, or to the start page
/// where there is no callback or an empty one.
pub open spec fn location_after(callback: Option<Seq<char>>) -> Seq<char> {
    match callback {
        Some(target) => if target.len() > 0 {
            target
        } else {
            "/oauth/"@
        },
        None => "/oauth/"@,
    }
}

/// Signs in the user named in `form`. A name that no user has is turned away
/// exactly as a wrong password is.
pub fn post_signin(db: &Database, query: Option<&Callback>, form: &LoginForm) -> (outcome: Result<
    SignIn,
    Error,
>)
    requires
        db.wf(),
    ensures
        match sign_in_result(db.policy(), db.user_named(form.username@), form.password@) {
            Ok(id) => outcome matches Ok(SignIn::SignedIn { user, location }) && user.user_id@ == id
                && user.username@ == form.username@ && location@ == location_after(
                match query {
                    Some(callback) => Some(callback@),
                    None => None,
                },
            ),
            Err(StoreError::InvalidCredentials) => outcome == Ok::<SignIn, Error>(
                SignIn::Unauthorized,
            ),
            Err(source) => outcome == Err::<SignIn, Error>(Error::Database { source }),
        },
{
    let user_id = match db.authenticate(form.username.as_str(), form.password.as_str()) {
        Ok(id) => id,
        Err(StoreError::InvalidCredentials) => {
            return Ok(SignIn::Unauthorized);
        },
        Err(source) => {
            return Err(Error::Database { source });
        },
    };
    let location = match query {
        Some(callback) => if !callback.as_str().is_empty() {
            callback.as_str().to_owned()
        } else {
            "/oauth/".to_owned()
        },
        None => "/oauth/".to_owned(),
    };
    Ok(SignIn::SignedIn { user: AuthUser { user_id, username: form.username.clone() }, location })
}

} // verus!
