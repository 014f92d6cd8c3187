//! The scope tokens this server knows, and marker types that name one of them.

use vstd::prelude::*;

use crate::oauth::primitives::scope::{is_token_list, lemma_push_to_set, texts, Scope as TokenSet};

verus! {

/// Every token the server recognizes. A token outside this list is never granted.
pub const SCOPES: [&'static str; 2] = ["account:read", "account:write"];

/// Whether `token` is one of the tokens of `SCOPES`.
pub open spec fn is_recognized(token: Seq<char>) -> bool {
    ||| token == "account:read"@
    ||| token == "account:write"@
}

/// The recognized tokens among those of `tokens`.
pub open spec fn recognized_part(tokens: Set<Seq<char>>) -> Set<Seq<char>> {
    tokens.filter(|token: Seq<char>| is_recognized(token))
}

/// Whether the server recognizes `token`.
pub fn recognizes(token: &str) -> (known: bool)
    ensures
        known == is_recognized(token@),
{
    token.eq(SCOPES[0]) || token.eq(SCOPES[1])
}

/// The scope made of the tokens of `scope` that the server recognizes.
pub fn recognized(scope: &TokenSet) -> (known: TokenSet)
    ensures
        known@ == recognized_part(scope@),
        known@.subset_of(scope@),
{
    let tokens = scope.tokens();
    let mut known = TokenSet::new();
    let mut i: usize = 0;
    proof {
        assert(known@ =~= recognized_part(texts(tokens@).take(0).to_set()));
    }
    while i < tokens.len()
        invariant
            i <= tokens.len(),
            is_token_list(texts(tokens@)),
            known@ == recognized_part(texts(tokens@).take(i as int).to_set()),
        decreases tokens.len() - i,
    {
        proof {
            let list = texts(tokens@);
            assert(list.take(i + 1) =~= list.take(i as int).push(list[i as int]));
            lemma_push_to_set(list.take(i as int), list[i as int]);
            assert(list[i as int] == tokens[i as int]@);
        }
        let ghost before = known@;
        if recognizes(tokens[i].as_str()) {
            known = known.with_token(tokens[i].as_str());
        }
        proof {
            let list = texts(tokens@);
            assert(known@ =~= recognized_part(list.take(i + 1).to_set()));
        }
        i += 1;
    }
    proof {
        assert(texts(tokens@).take(i as int) =~= texts(tokens@));
    }
    known
}

/// A kind of resource, with the token for each way of using it.
pub trait Resource {
    spec fn read_token() -> Seq<char>;

    spec fn write_token() -> Seq<char>;

    /// The token that allows reading the resource.
    fn read() -> (token: &'static str)
        ensures
            token@ == Self::read_token(),
    ;

    /// The token that allows changing the resource.
    fn write() -> (token: &'static str)
        ensures
            token@ == Self::write_token(),
    ;
}

/// The account of a user.
pub struct Account;

impl Resource for Account {
    open spec fn read_token() -> Seq<char> {
        "account:read"@
    }

    open spec fn write_token() -> Seq<char> {
        "account:write"@
    }

    fn read() -> (token: &'static str) {
        SCOPES[0]
    }

    fn write() -> (token: &'static str) {
        SCOPES[1]
    }
}

/// The recognized tokens by name.
#[derive(Clone, Copy, Debug, PartialEq, Eq)]
pub enum Scopes {
    AccountRead,
    AccountWrite,
}

impl Scopes {
    /// The token that `text` spells, if it spells a recognized one.
    pub fn from_str(s: &str) -> (parsed: Result<Scopes, ()>)
        ensures
            parsed is Ok <==> is_recognized(s@),
            parsed == Ok::<Scopes, ()>(Scopes::AccountRead) <==> s@ == "account:read"@,
            parsed matches Ok(scope) ==> scope.token() == s@,
    {
        proof {
            lemma_tokens_differ();
        }
        if s.eq(SCOPES[0]) {
            Ok(Scopes::AccountRead)
        } else if s.eq(SCOPES[1]) {
            Ok(Scopes::AccountWrite)
        } else {
            Err(())
        }
    }

    /// The text of the token.
    pub open spec fn token(self) -> Seq<char> {
        match self {
            Scopes::AccountRead => "account:read"@,
            Scopes::AccountWrite => "account:write"@,
        }
    }

    /// The text of the token.
    pub fn as_str(&self) -> (text: &'static str)
        ensures
            text@ == self.token(),
    {
        match self {
            Scopes::AccountRead => SCOPES[0],
            Scopes::AccountWrite => SCOPES[1],
        }
    }
}

/// The two recognized tokens are two different texts.
pub proof fn lemma_tokens_differ()
    ensures
        "account:read"@ != "account:write"@,
{
    reveal_strlit("account:read");
    reveal_strlit("account:write");
    assert("account:read"@.len() == 12);
    assert("account:write"@.len() == 13);
}

/// Marks a request that reads the resource `S`.
pub struct Read<S>(pub S);

/// Marks a request that changes the resource `S`.
pub struct Write<S>(pub S);

/// The token a request of the marked kind needs.
pub trait Scope {
    spec fn scope_token() -> Seq<char>;

    fn scope() -> (token: &'static str)
        ensures
            token@ == Self::scope_token(),
    ;
}

impl Scope for () {
    open spec fn scope_token() -> Seq<char> {
        ""@
    }

    fn scope() -> (token: &'static str) {
        ""
    }
}

impl<S: Resource> Scope for Read<S> {
    open spec fn scope_token() -> Seq<char> {
        S::read_token()
    }

    fn scope() -> (token: &'static str) {
        S::read()
    }
}

impl<S: Resource> Scope for Write<S> {
    open spec fn scope_token() -> Seq<char> {
        S::write_token()
    }

    fn scope() -> (token: &'static str) {
        S::write()
    }
}

} // verus!
