//! Signing up.

use vstd::prelude::*;

use super::SignUpForm;
use crate::oauth::database::{is_registrable, Database, StoreError};
use crate::oauth::error::Error;
use crate::oauth::models::{UserId, ID_LENGTH};
use crate::oauth::primitives::generator::is_safe_text;
use crate::oauth::primitives::secret::Secret;

verus! {

/// Registers the user described in `form`.
///
/// A name that is taken is a conflict. Of the other names, an empty or overlong one
/// is refused as invalid input, and so is an overlong password. The identifier is
/// drawn at random; should it be taken, which is next to impossible, that is a
/// conflict too. In every other case the user is registered.
pub fn post_signup(db: &mut Database, form: SignUpForm) -> (created: Result<UserId, Error>)
    requires
        old(db).wf(),
    ensures
        final(db).wf(),
        final(db).clients() == old(db).clients(),
        final(db).policy() == old(db).policy(),
        old(db).names().contains_key(form.username@) ==> created == Err::<UserId, Error>(
            Error::ResourceConflict,
        ),
        created matches Err(error) ==> error == Error::ResourceConflict || error == (
        Error::Database { source: StoreError::InvalidInput }),
        created == Err::<UserId, Error>(Error::Database { source: StoreError::InvalidInput })
            <==> !old(db).names().contains_key(form.username@) && !is_registrable(
            form.username@,
            form.password@,
        ),
        created == Err::<UserId, Error>(Error::ResourceConflict) ==> old(db).names().contains_key(
            form.username@,
        ) || exists|id: Seq<char>|
            id.len() == ID_LENGTH && is_safe_text(id) && #[trigger] old(db).users().contains_key(id),
        created matches Ok(id) ==> id@.len() == ID_LENGTH && old(db).registers(
            *final(db),
            id@,
            form.username@,
            form.password@,
            form.given_name@,
        ),
        created is Err ==> final(db).users() == old(db).users() && final(db).names() == old(
            db,
        ).names(),
{
    if db.contains_user_name(form.username.as_str()) {
        return Err(Error::ResourceConflict);
    }
    match db.register_user(
        form.username.as_str(),
        Secret::new(form.password),
        form.given_name.as_str(),
    ) {
        Ok(id) => Ok(id),
        Err(source) => Err(Error::from_store(source)),
    }
}

} // verus!
