//! What the pages of the server decide, apart from how requests come in and answers
//! go out.

use vstd::prelude::*;

use crate::oauth::database::resource::user::AuthUser;

pub mod client;
pub mod index;
pub mod oauth;
pub mod signin;
pub mod signup;

verus! {

/// A request that comes from a signed-in user.
#[derive(Debug, PartialEq, Eq)]
pub struct Session {
    pub user: AuthUser,
}

/// Where to go once the user has signed in.
#[derive(Clone, Debug, Default, PartialEq, Eq)]
pub struct Callback {
    callback: String,
}

impl View for Callback {
    type V = Seq<char>;

    closed spec fn view(&self) -> Seq<char> {
        self.callback@
    }
}

impl Callback {
    pub fn as_str(&self) -> (text: &str)
        ensures
            text@ == self@,
    {
        self.callback.as_str()
    }

    pub fn from_str(callback: &str) -> (made: Callback)
        ensures
            made@ == callback@,
    {
        Callback { callback: callback.to_owned() }
    }
}

/// What the sign-in form holds.
#[derive(Clone, Debug)]
pub struct LoginForm {
    pub username: String,
    pub password: String,
}

/// What the sign-up form holds.
#[derive(Clone, Debug)]
pub struct SignUpForm {
    pub username: String,
    pub password: String,
    pub given_name: String,
}

/// `text` without the slashes it begins with.
pub open spec fn without_leading_slashes(text: Seq<char>) -> Seq<char>
    decreases text.len(),
{
    if text.len() > 0 && text[0] == '/' {
        without_leading_slashes(text.drop_first())
    } else {
        text
    }
}

/// Where a request without a session is sent back to after signing in: its path and
/// query without the slashes at the beginning, or nothing where it has neither.
pub fn callback_for(path_and_query: Option<&str>) -> (callback: Callback)
    ensures
        callback@ == (match path_and_query {
            Some(text) => without_leading_slashes(text@),
            None => Seq::<char>::empty(),
        }),
{
    let text = match path_and_query {
        Some(text) => text,
        None => {
            return Callback { callback: String::new() };
        },
    };
    let len = text.unicode_len();
    let mut start: usize = 0;
    let mut slashes = true;
    proof {
        assert(text@.skip(0) =~= text@);
    }
    while start < len && slashes
        invariant
            start <= len == text@.len(),
            without_leading_slashes(text@) == without_leading_slashes(text@.skip(start as int)),
            !slashes ==> start < len && text@[start as int] != '/',
        decreases len - start, slashes as int,
    {
        if text.get_char(start) == '/' {
            proof {
                assert(text@.skip(start as int).drop_first() =~= text@.skip(start + 1));
            }
            start += 1;
        } else {
            slashes = false;
        }
    }
    proof {
        assert(text@.subrange(start as int, len as int) =~= text@.skip(start as int));
    }
    Callback::from_str(text.substring_char(start, len))
}

} // verus!
