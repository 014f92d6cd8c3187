//! A wider set of scope tokens, with one for following an account, and marker types
//! that name one of them. Requests are settled on the tokens of `scopes`, not on
//! these.

use vstd::prelude::*;

verus! {

/// Every token of the wider set.
pub const SCOPES: [&'static str; 3] = ["account:read", "account:write", "account:follow"];

/// Whether `token` is one of the tokens of `SCOPES`.
pub open spec fn is_recognized(token: Seq<char>) -> bool {
    ||| token == "account:read"@
    ||| token == "account:write"@
    ||| token == "account:follow"@
}

/// Whether `token` is one of the wider set.
pub fn recognizes(token: &str) -> (known: bool)
    ensures
        known == is_recognized(token@),
{
    token.eq(SCOPES[0]) || token.eq(SCOPES[1]) || token.eq(SCOPES[2])
}

/// A kind of resource, with the token for each way of using it.
pub trait Resource {
    spec fn read_token() -> Seq<char>;

    spec fn write_token() -> Seq<char>;

    spec fn follow_token() -> Seq<char>;

    /// The token that allows reading the resource.
    fn read() -> (token: &'static str)
        ensures
            token@ == Self::read_token(),
    ;

    /// The token that allows changing the resource.
    fn write() -> (token: &'static str)
        ensures
            token@ == Self::write_token(),
    ;

    /// The token that allows following the resource.
    fn follow() -> (token: &'static str)
        ensures
            token@ == Self::follow_token(),
    ;
}

/// The account of a user.
pub struct Account;

impl Resource for Account {
    open spec fn read_token() -> Seq<char> {
        "account:read"@
    }

    open spec fn write_token() -> Seq<char> {
        "account:write"@
    }

    open spec fn follow_token() -> Seq<char> {
        "account:follow"@
    }

    fn read() -> (token: &'static str) {
        SCOPES[0]
    }

    fn write() -> (token: &'static str) {
        SCOPES[1]
    }

    fn follow() -> (token: &'static str) {
        SCOPES[2]
    }
}

/// The tokens of the wider set by name.
#[derive(Clone, Copy, Debug, PartialEq, Eq)]
pub enum Scopes {
    AccountRead,
    AccountWrite,
    AccountFollow,
}

impl Scopes {
    /// The token that `s` spells, if it spells one of the wider set.
    pub fn from_str(s: &str) -> (parsed: Result<Scopes, ()>)
        ensures
            parsed is Ok <==> is_recognized(s@),
            parsed == Ok::<Scopes, ()>(Scopes::AccountRead) <==> s@ == "account:read"@,
            parsed matches Ok(scope) ==> scope.token() == s@,
    {
        proof {
            lemma_tokens_differ();
        }
        if s.eq(SCOPES[0]) {
            Ok(Scopes::AccountRead)
        } else if s.eq(SCOPES[1]) {
            Ok(Scopes::AccountWrite)
        } else if s.eq(SCOPES[2]) {
            Ok(Scopes::AccountFollow)
        } else {
            Err(())
        }
    }

    /// The text of the token.
    pub open spec fn token(self) -> Seq<char> {
        match self {
            Scopes::AccountRead => "account:read"@,
            Scopes::AccountWrite => "account:write"@,
            Scopes::AccountFollow => "account:follow"@,
        }
    }

    /// The text of the token.
    pub fn as_str(&self) -> (text: &'static str)
        ensures
            text@ == self.token(),
    {
        match self {
            Scopes::AccountRead => SCOPES[0],
            Scopes::AccountWrite => SCOPES[1],
            Scopes::AccountFollow => SCOPES[2],
        }
    }
}

/// The three tokens are three different texts.
pub proof fn lemma_tokens_differ()
    ensures
        "account:read"@ != "account:write"@,
        "account:read"@ != "account:follow"@,
        "account:write"@ != "account:follow"@,
{
    reveal_strlit("account:read");
    reveal_strlit("account:write");
    reveal_strlit("account:follow");
    assert("account:read"@.len() == 12);
    assert("account:write"@.len() == 13);
    assert("account:follow"@.len() == 14);
}

/// Marks a request that reads the resource `S`.
pub struct Read<S>(pub S);

/// Marks a request that changes the resource `S`.
pub struct Write<S>(pub S);

/// Marks a request that follows the resource `S`.
pub struct Follow<S>(pub S);

/// The token a request of the marked kind needs.
pub trait Scope {
    spec fn scope_token() -> Seq<char>;

    fn scope() -> (token: &'static str)
        ensures
            token@ == Self::scope_token(),
    ;
}

impl Scope for () {
    open spec fn scope_token() -> Seq<char> {
        ""@
    }

    fn scope() -> (token: &'static str) {
        ""
    }
}

impl<S: Resource> Scope for Read<S> {
    open spec fn scope_token() -> Seq<char> {
        S::read_token()
    }

    fn scope() -> (token: &'static str) {
        S::read()
    }
}

impl<S: Resource> Scope for Write<S> {
    open spec fn scope_token() -> Seq<char> {
        S::write_token()
    }

    fn scope() -> (token: &'static str) {
        S::write()
    }
}

impl<S: Resource> Scope for Follow<S> {
    open spec fn scope_token() -> Seq<char> {
        S::follow_token()
    }

    fn scope() -> (token: &'static str) {
        S::follow()
    }
}

} // verus!
