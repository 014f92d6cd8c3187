//! Identifiers of users and clients.

use vstd::prelude::*;

use crate::oauth::primitives::generator::{is_safe_text, random_text};
use crate::oauth::primitives::registrar::{byte_count, byte_len};

pub mod client;

verus! {

/// Number of characters of every identifier.
pub const ID_LENGTH: usize = 21;

/// A text offered as an identifier had the wrong length.
#[derive(Clone, Copy, Debug, PartialEq, Eq)]
pub struct InvalidLengthError {
    /// The number of characters that was asked for.
    pub expected: usize,
    /// The length of the text that was offered, in bytes.
    pub actual: usize,
}

/// Identifier of a user: an opaque text of `ID_LENGTH` characters.
#[derive(Debug, PartialEq, Eq, Hash)]
pub struct UserId {
    text: String,
}

impl View for UserId {
    type V = Seq<char>;

    closed spec fn view(&self) -> Seq<char> {
        self.text@
    }
}

impl Clone for UserId {
    fn clone(&self) -> (copy: Self)
        ensures
            copy == *self,
    {
        proof {
            use_type_invariant(self);
        }
        UserId { text: self.text.clone() }
    }
}

impl UserId {
    #[verifier::type_invariant]
    spec fn well_formed(&self) -> bool {
        self.text@.len() == ID_LENGTH
    }

    /// Draws a fresh identifier at random.
    pub fn new() -> (id: Self)
        ensures
            id@.len() == ID_LENGTH,
            is_safe_text(id@),
    {
        UserId { text: random_text(ID_LENGTH) }
    }

    pub fn as_str(&self) -> (text: &str)
        ensures
            text@ == self@,
            text@.len() == ID_LENGTH,
    {
        proof {
            use_type_invariant(self);
        }
        self.text.as_str()
    }

    /// Reads an identifier: any text of exactly `ID_LENGTH` characters is one. Another
    /// text is refused, with its length in bytes.
    pub fn from_str(src: &str) -> (parsed: Result<Self, InvalidLengthError>)
        ensures
            parsed is Ok <==> src@.len() == ID_LENGTH,
            parsed matches Ok(id) ==> id@ == src@,
            parsed matches Err(e) ==> e.expected == ID_LENGTH && e.actual == byte_len(src@),
    {
        if src.unicode_len() == ID_LENGTH {
            Ok(UserId { text: src.to_owned() })
        } else {
            Err(InvalidLengthError { expected: ID_LENGTH, actual: byte_count(src) })
        }
    }

    pub fn to_string(&self) -> (text: String)
        ensures
            text@ == self@,
    {
        self.text.clone()
    }

    /// Whether two identifiers are the same text.
    pub fn same(&self, other: &UserId) -> (equal: bool)
        ensures
            equal == (self@ == other@),
    {
        self.text == other.text
    }
}

/// Identifier of a client: an opaque text of `ID_LENGTH` characters.
#[derive(Debug, PartialEq, Eq, Hash)]
pub struct ClientId {
    text: String,
}

impl View for ClientId {
    type V = Seq<char>;

    closed spec fn view(&self) -> Seq<char> {
        self.text@
    }
}

impl Clone for ClientId {
    fn clone(&self) -> (copy: Self)
        ensures
            copy == *self,
    {
        proof {
            use_type_invariant(self);
        }
        ClientId { text: self.text.clone() }
    }
}

impl ClientId {
    #[verifier::type_invariant]
    spec fn well_formed(&self) -> bool {
        self.text@.len() == ID_LENGTH
    }

    /// Draws a fresh identifier at random.
    pub fn new() -> (id: Self)
        ensures
            id@.len() == ID_LENGTH,
            is_safe_text(id@),
    {
        ClientId { text: random_text(ID_LENGTH) }
    }

    pub fn as_str(&self) -> (text: &str)
        ensures
            text@ == self@,
            text@.len() == ID_LENGTH,
    {
        proof {
            use_type_invariant(self);
        }
        self.text.as_str()
    }

    /// Reads an identifier: any text of exactly `ID_LENGTH` characters is one. Another
    /// text is refused, with its length in bytes.
    pub fn from_str(src: &str) -> (parsed: Result<Self, InvalidLengthError>)
        ensures
            parsed is Ok <==> src@.len() == ID_LENGTH,
            parsed matches Ok(id) ==> id@ == src@,
            parsed matches Err(e) ==> e.expected == ID_LENGTH && e.actual == byte_len(src@),
    {
        if src.unicode_len() == ID_LENGTH {
            Ok(ClientId { text: src.to_owned() })
        } else {
            Err(InvalidLengthError { expected: ID_LENGTH, actual: byte_count(src) })
        }
    }

    pub fn to_string(&self) -> (text: String)
        ensures
            text@ == self@,
    {
        self.text.clone()
    }

    /// Whether two identifiers are the same text.
    pub fn same(&self, other: &ClientId) -> (equal: bool)
        ensures
            equal == (self@ == other@),
    {
        self.text == other.text
    }
}

} // verus!
