//! What is handed out about a user.

use vstd::prelude::*;
use vstd::string::StringExecFns;

use super::client::AuthClient;
use crate::oauth::models::{InvalidLengthError, UserId, ID_LENGTH};
use crate::oauth::primitives::registrar::{byte_count, byte_len, lemma_byte_len_at_least_len};
use crate::oauth::primitives::scope::Scope;

verus! {

/// A signed-in user: identifier and user name.
#[derive(Debug, PartialEq, Eq)]
pub struct AuthUser {
    pub user_id: UserId,
    pub username: String,
}

/// The written form of a user: the identifier, a colon, the user name.
pub open spec fn written_user(user_id: Seq<char>, username: Seq<char>) -> Seq<char> {
    user_id + seq![':'] + username
}

impl Clone for AuthUser {
    fn clone(&self) -> (copy: Self)
        ensures
            copy == *self,
    {
        AuthUser { user_id: self.user_id.clone(), username: self.username.clone() }
    }
}

impl AuthUser {
    /// The identifier, a colon, the user name.
    pub fn to_string(&self) -> (text: String)
        ensures
            text@ == written_user(self.user_id@, self.username@),
            self.user_id@.len() == ID_LENGTH,
    {
        proof {
            reveal_strlit(":");
            assert(":"@ =~= seq![':']);
        }
        let mut text = self.user_id.to_string();
        let _ = self.user_id.as_str();
        text.append(":");
        text.append(self.username.as_str());
        text
    }

    /// Reads a user from its written form: the first `ID_LENGTH` characters are the
    /// identifier, the next one separates, the rest is the user name.
    ///
    /// A text of fewer than `ID_LENGTH` characters is refused as no identifier; one of
    /// exactly `ID_LENGTH` characters is refused for want of the separator. The
    /// error tells the length of the text in bytes.
    pub fn from_str(src: &str) -> (parsed: Result<AuthUser, InvalidLengthError>)
        ensures
            parsed is Ok <==> src@.len() > ID_LENGTH,
            parsed matches Ok(user) ==> {
                &&& user.user_id@ == src@.subrange(0, ID_LENGTH as int)
                &&& user.username@ == src@.subrange(ID_LENGTH + 1, src@.len() as int)
            },
            parsed matches Err(e) ==> {
                &&& e.actual == byte_len(src@)
                &&& e.expected == if src@.len() < ID_LENGTH {
                    ID_LENGTH
                } else {
                    (ID_LENGTH + 1) as usize
                }
            },
            byte_len(src@) < ID_LENGTH ==> parsed == Err::<AuthUser, InvalidLengthError>(
                InvalidLengthError { expected: ID_LENGTH, actual: byte_len(src@) as usize },
            ),
    {
        proof {
            lemma_byte_len_at_least_len(src@);
        }
        let length = src.unicode_len();
        if length < ID_LENGTH {
            return Err(InvalidLengthError { expected: ID_LENGTH, actual: byte_count(src) });
        }
        if length == ID_LENGTH {
            return Err(InvalidLengthError { expected: ID_LENGTH + 1, actual: byte_count(src) });
        }
        match UserId::from_str(src.substring_char(0, ID_LENGTH)) {
            Ok(user_id) => Ok(
                AuthUser { user_id, username: src.substring_char(ID_LENGTH + 1, length).to_owned() },
            ),
            Err(e) => Err(e),
        }
    }
}

/// Reading what was written gives the user back.
pub proof fn law_written_user_reads_back(user_id: Seq<char>, username: Seq<char>)
    requires
        user_id.len() == ID_LENGTH,
    ensures
        written_user(user_id, username).len() > ID_LENGTH,
        written_user(user_id, username).subrange(0, ID_LENGTH as int) == user_id,
        written_user(user_id, username).subrange(
            ID_LENGTH + 1,
            written_user(user_id, username).len() as int,
        ) == username,
{
    let text = written_user(user_id, username);
    assert(text.subrange(0, ID_LENGTH as int) =~= user_id);
    assert(text.subrange(ID_LENGTH + 1, text.len() as int) =~= username);
}

/// Names the authorization a user gave to a client.
#[derive(Debug, PartialEq, Eq)]
pub struct AuthorizationQuery {
    pub user: AuthUser,
    pub client: AuthClient,
}

/// What a user granted to a client.
#[derive(Debug, PartialEq, Eq)]
pub struct Authorization {
    pub scope: Scope,
}

} // verus!
