//! Secrets that do not show when they are printed.

use vstd::prelude::*;

use secrecy::ExposeSecret;

verus! {

/// A password or another secret text. Its `Debug` form does not show the text.
///
/// The text is held by `secrecy::Secret<String>`, which wipes it when it is dropped.
/// Trusted: the struct is opaque to Verus, which does not take the declaration of
/// `secrecy::Secret` with its bound on `Zeroize`.
#[verifier::external_body]
#[derive(Debug)]
pub struct Secret {
    inner: secrecy::Secret<String>,
}

/// The text that a secret holds.
pub uninterp spec fn secret_text(secret: Secret) -> Seq<char>;

/// Wraps a text. Calls `secrecy::Secret::new`.
/// Trusted: the secret holds the text it was made from.
#[verifier::external_body]
fn conceal(text: String) -> (secret: Secret)
    ensures
        secret_text(secret) == text@,
{
    Secret { inner: secrecy::Secret::new(text) }
}

/// Hands out the text. Calls `secrecy::ExposeSecret::expose_secret`.
/// Trusted: the text handed out is the one the secret holds.
#[verifier::external_body]
fn expose<'a>(secret: &'a Secret) -> (text: &'a str)
    ensures
        text@ == secret_text(*secret),
{
    secret.inner.expose_secret().as_str()
}

impl View for Secret {
    type V = Seq<char>;

    open spec fn view(&self) -> Seq<char> {
        secret_text(*self)
    }
}

impl Secret {
    /// Makes a secret of `text`.
    pub fn new(text: String) -> (secret: Secret)
        ensures
            secret@ == text@,
    {
        conceal(text)
    }

    /// The text of the secret. This is the only way to read it.
    pub fn expose_secret(&self) -> (text: &str)
        ensures
            text@ == self@,
    {
        expose(self)
    }
}

} // verus!
