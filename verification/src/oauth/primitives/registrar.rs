//! What a registrar of clients works with: redirect URLs, the way secrets are kept,
//! clients before and after their secret was encoded, and the values exchanged
//! while an authorization request is negotiated.

use vstd::prelude::*;
use vstd::slice::slice_to_vec;

use oxide_auth::primitives::registrar::PasswordPolicy as OxidePasswordPolicy;

use crate::oauth::primitives::scope::Scope;

verus! {

/// Why a registrar refused a request.
#[derive(Clone, Copy, Debug, PartialEq, Eq, Structural)]
pub enum RegistrarError {
    /// No client is registered under the identifier.
    UnknownClient,
    /// The redirect URL asked for is none of the client's registered ones.
    RedirectMismatch,
    /// The client did not prove its identity.
    AuthFailed,
    /// The kept data of the client cannot be used.
    InternalError,
}

impl RegistrarError {
    pub fn to_string(&self) -> (text: String)
        ensures
            text@ == (match *self {
                RegistrarError::UnknownClient => "the client is not registered"@,
                RegistrarError::RedirectMismatch => "the redirect url is not registered"@,
                RegistrarError::AuthFailed => "the client could not be authenticated"@,
                RegistrarError::InternalError => "an unexpected internal error occurred"@,
            }),
    {
        match self {
            RegistrarError::UnknownClient => "the client is not registered".to_owned(),
            RegistrarError::RedirectMismatch => "the redirect url is not registered".to_owned(),
            RegistrarError::AuthFailed => "the client could not be authenticated".to_owned(),
            RegistrarError::InternalError => "an unexpected internal error occurred".to_owned(),
        }
    }
}

/// Longest identity and longest secret, in bytes, that a password policy takes.
pub const MAX_HASHED_LEN: usize = 0xFFFF_FFFF;

/// Number of bytes that `text` takes in UTF-8, which is what `str::len` returns.
pub open spec fn byte_len(text: Seq<char>) -> nat {
    vstd::utf8::encode_utf8(text).len()
}

/// Number of bytes that `text` takes in UTF-8.
pub fn byte_count(text: &str) -> (count: usize)
    ensures
        count == byte_len(text@),
{
    text.as_bytes().len()
}

/// A text takes at least one byte for each of its characters.
pub proof fn lemma_byte_len_at_least_len(text: Seq<char>)
    ensures
        byte_len(text) >= text.len(),
    decreases text.len(),
{
    if text.len() > 0 {
        lemma_byte_len_at_least_len(text.drop_first());
        assert(vstd::utf8::encode_scalar(text[0] as u32).len() >= 1);
    }
}

/// What Argon2 says of a secret offered for an identity against kept data:
/// `Some(true)` where the secret is the one the data was made from, `Some(false)`
/// where it is not, `None` where the data cannot be read.
pub uninterp spec fn argon2_verdict(identity: Seq<char>, secret: Seq<u8>, kept: Seq<u8>) -> Option<bool>;

/// Encodes a secret with Argon2 and a random salt.
///
/// Calls `PasswordPolicy::store` of `oxide_auth::primitives::registrar::Argon2`.
/// Trusted: checking the same secret for the same identity against the data that
/// comes back succeeds. The lengths are bounded because `store` panics beyond them.
#[verifier::external_body]
fn argon2_store(identity: &str, secret: &[u8]) -> (kept: Vec<u8>)
    requires
        byte_len(identity@) <= MAX_HASHED_LEN,
        secret@.len() <= MAX_HASHED_LEN,
    ensures
        argon2_verdict(identity@, secret@, kept@) == Some(true),
{
    oxide_auth::primitives::registrar::Argon2::default().store(identity, secret)
}

/// Checks a secret against data encoded with Argon2.
///
/// Calls `PasswordPolicy::check` of `oxide_auth::primitives::registrar::Argon2`.
/// Trusted: the answer depends on the three arguments alone. `Unspecified` is handed
/// on as `Some(false)`, `PrimitiveError` as `None`.
#[verifier::external_body]
fn argon2_check(identity: &str, secret: &[u8], kept: &[u8]) -> (verdict: Option<bool>)
    ensures
        verdict == argon2_verdict(identity@, secret@, kept@),
{
    match oxide_auth::primitives::registrar::Argon2::default().check(identity, secret, kept) {
        Ok(()) => Some(true),
        Err(oxide_auth::primitives::registrar::RegistrarError::Unspecified) => Some(false),
        Err(oxide_auth::primitives::registrar::RegistrarError::PrimitiveError) => None,
    }
}

/// Whether two byte strings are equal. The time taken depends on their lengths only,
/// not on where they differ.
pub fn constant_time_eq(a: &[u8], b: &[u8]) -> (equal: bool)
    ensures
        equal == (a@ == b@),
{
    if a.len() != b.len() {
        return false;
    }
    let mut difference: u8 = 0;
    let mut i: usize = 0;
    proof {
        assert(a@.take(0) =~= b@.take(0));
    }
    while i < a.len()
        invariant
            i <= a.len() == b.len(),
            difference == 0 <==> a@.take(i as int) == b@.take(i as int),
        decreases a.len() - i,
    {
        let x = a[i];
        let y = b[i];
        let ghost before = difference;
        difference = difference | (x ^ y);
        proof {
            assert((before | (x ^ y)) == 0 <==> (before == 0 && x == y)) by (bit_vector);
            if before == 0 && x == y {
                assert(a@.take(i + 1) =~= a@.take(i as int).push(x));
                assert(b@.take(i + 1) =~= b@.take(i as int).push(y));
            } else if before == 0 {
                assert(a@.take(i + 1)[i as int] != b@.take(i + 1)[i as int]);
            } else {
                assert(a@.take(i as int) =~= a@.take(i + 1).take(i as int));
                assert(b@.take(i as int) =~= b@.take(i + 1).take(i as int));
            }
        }
        i += 1;
    }
    proof {
        assert(a@.take(i as int) =~= a@);
        assert(b@.take(i as int) =~= b@);
    }
    difference == 0
}

/// How secrets are turned into the data that is kept, and checked against it.
#[derive(Clone, Copy, Debug, PartialEq, Eq, Structural)]
pub enum PasswordPolicy {
    /// Argon2 with a random salt, bound to the identity the secret belongs to.
    Argon2,
    /// Keeps the secret as it is. Fast, and for tests only.
    Plain,
}

impl PasswordPolicy {
    /// What the policy says of `secret`, offered for `identity`, against `kept`:
    /// `Some(true)` for the right secret, `Some(false)` for a wrong one, `None`
    /// where `kept` cannot be read.
    pub open spec fn verdict(self, identity: Seq<char>, secret: Seq<u8>, kept: Seq<u8>) -> Option<
        bool,
    > {
        match self {
            PasswordPolicy::Argon2 => argon2_verdict(identity, secret, kept),
            PasswordPolicy::Plain => Some(secret == kept),
        }
    }

    /// Turns `secret` into the data to keep for `identity`.
    pub fn store(&self, identity: &str, secret: &[u8]) -> (kept: Vec<u8>)
        requires
            byte_len(identity@) <= MAX_HASHED_LEN,
            secret@.len() <= MAX_HASHED_LEN,
        ensures
            self.verdict(identity@, secret@, kept@) == Some(true),
    {
        match self {
            PasswordPolicy::Argon2 => argon2_store(identity, secret),
            PasswordPolicy::Plain => slice_to_vec(secret),
        }
    }

    /// Checks `secret`, offered for `identity`, against the kept data.
    pub fn check(&self, identity: &str, secret: &[u8], kept: &[u8]) -> (checked: Result<
        (),
        RegistrarError,
    >)
        ensures
            checked == verdict_result(self.verdict(identity@, secret@, kept@)),
    {
        let verdict = match self {
            PasswordPolicy::Argon2 => argon2_check(identity, secret, kept),
            PasswordPolicy::Plain => Some(constant_time_eq(secret, kept)),
        };
        from_verdict(verdict)
    }

    /// Whether `secret`, offered for `identity`, is the one `kept` was made from.
    /// Data that cannot be read is reported as an internal error.
    pub fn verify(&self, identity: &str, secret: &[u8], kept: &[u8]) -> (verified: Result<
        bool,
        RegistrarError,
    >)
        ensures
            verified == (match self.verdict(identity@, secret@, kept@) {
                Some(right) => Ok::<bool, RegistrarError>(right),
                None => Err::<bool, RegistrarError>(RegistrarError::InternalError),
            }),
    {
        match self.check(identity, secret, kept) {
            Ok(()) => Ok(true),
            Err(RegistrarError::AuthFailed) => Ok(false),
            Err(_) => Err(RegistrarError::InternalError),
        }
    }
}

/// The result of a check with the given verdict.
pub open spec fn verdict_result(verdict: Option<bool>) -> Result<(), RegistrarError> {
    match verdict {
        Some(true) => Ok(()),
        Some(false) => Err(RegistrarError::AuthFailed),
        None => Err(RegistrarError::InternalError),
    }
}

/// Turns a verdict into the result of a check.
pub fn from_verdict(verdict: Option<bool>) -> (checked: Result<(), RegistrarError>)
    ensures
        checked == verdict_result(verdict),
{
    match verdict {
        Some(true) => Ok(()),
        Some(false) => Err(RegistrarError::AuthFailed),
        None => Err(RegistrarError::InternalError),
    }
}

/// The form in which a URL is kept and compared: what parsing `text` as an absolute
/// URL and writing the result out again gives, or `None` where `text` is no such URL.
pub uninterp spec fn normalized_url(text: Seq<char>) -> Option<Seq<char>>;

/// Parses `text` as an absolute URL and writes it out in its normal form.
///
/// Calls `str::parse` for the URL held by `RegisteredUrl::Semantic` of
/// `oxide_auth::primitives::registrar`, and `RegisteredUrl::as_str`.
/// Trusted: the answer depends on the text alone.
#[verifier::external_body]
fn normalize_url(text: &str) -> (normal: Option<String>)
    ensures
        normal matches Some(written) ==> normalized_url(text@) == Some(written@),
        normal is None ==> normalized_url(text@) is None,
{
    let url = oxide_auth::primitives::registrar::RegisteredUrl::Semantic(text.parse().ok()?);
    Some(url.as_str().to_string())
}

/// A redirect URL in its normal form.
#[derive(Debug, PartialEq, Eq)]
pub struct RegisteredUrl {
    text: String,
}

impl View for RegisteredUrl {
    type V = Seq<char>;

    closed spec fn view(&self) -> Seq<char> {
        self.text@
    }
}

impl Clone for RegisteredUrl {
    fn clone(&self) -> (copy: Self)
        ensures
            copy@ == self@,
    {
        RegisteredUrl { text: self.text.clone() }
    }
}

impl RegisteredUrl {
    /// Reads a URL. A text that is no absolute URL gives `None`.
    pub fn parse(src: &str) -> (parsed: Option<RegisteredUrl>)
        ensures
            parsed matches Some(url) ==> normalized_url(src@) == Some(url@),
            parsed is None ==> normalized_url(src@) is None,
    {
        RegisteredUrl::from_normalized(normalize_url(src))
    }

    /// The URL whose normal form is `normal`, where there is one.
    pub fn from_normalized(normal: Option<String>) -> (url: Option<RegisteredUrl>)
        ensures
            url is Some <==> normal is Some,
            url matches Some(kept) ==> kept@ == normal->0@,
    {
        match normal {
            Some(text) => Some(RegisteredUrl { text }),
            None => None,
        }
    }

    pub fn as_str(&self) -> (text: &str)
        ensures
            text@ == self@,
    {
        self.text.as_str()
    }

    pub fn to_string(&self) -> (text: String)
        ensures
            text@ == self@,
    {
        self.text.clone()
    }

    /// Whether this URL is, character by character, the normal form `other`.
    pub fn is(&self, other: &str) -> (equal: bool)
        ensures
            equal == (self@ == other@),
    {
        self.text.as_str().eq(other)
    }
}

/// The normal forms of a list of URLs.
pub open spec fn url_texts(urls: Seq<RegisteredUrl>) -> Seq<Seq<char>> {
    Seq::new(urls.len(), |i: int| urls[i]@)
}

/// Copies a list of URLs.
pub fn clone_urls(urls: &Vec<RegisteredUrl>) -> (copy: Vec<RegisteredUrl>)
    ensures
        url_texts(copy@) == url_texts(urls@),
{
    let mut copy: Vec<RegisteredUrl> = Vec::new();
    let mut i: usize = 0;
    while i < urls.len()
        invariant
            i <= urls.len(),
            copy.len() == i,
            forall|k: int| 0 <= k < i ==> copy[k]@ == urls[k]@,
        decreases urls.len() - i,
    {
        copy.push(urls[i].clone());
        i += 1;
    }
    assert(url_texts(copy@) =~= url_texts(urls@));
    copy
}

/// The two kinds of client, with what proves the identity of a confidential one.
#[derive(Debug, PartialEq, Eq)]
pub enum ClientType {
    /// A public client, which proves nothing.
    Public,
    /// A confidential client.
    Confidential {
        /// The secret, or the data a password policy made from it.
        passdata: Vec<u8>,
    },
}

impl View for ClientType {
    type V = Option<Seq<u8>>;

    open spec fn view(&self) -> Option<Seq<u8>> {
        match self {
            ClientType::Public => None,
            ClientType::Confidential { passdata } => Some(passdata@),
        }
    }
}

impl Clone for ClientType {
    fn clone(&self) -> (copy: Self)
        ensures
            copy@ == self@,
    {
        match self {
            ClientType::Public => ClientType::Public,
            ClientType::Confidential { passdata } => ClientType::Confidential {
                passdata: passdata.clone(),
            },
        }
    }
}

/// What a client is, as plain values. `passdata` is `None` for a public client.
pub struct ClientView {
    pub client_id: Seq<char>,
    pub redirect_uri: Seq<char>,
    pub additional_redirect_uris: Seq<Seq<char>>,
    pub default_scope: Set<Seq<char>>,
    pub passdata: Option<Seq<u8>>,
}

impl ClientView {
    /// Whether `url` is the client's redirect URL or one of its additional ones.
    pub open spec fn has_url(self, url: Seq<char>) -> bool {
        self.redirect_uri == url || self.additional_redirect_uris.contains(url)
    }

    pub open spec fn is_public(self) -> bool {
        self.passdata is None
    }

    /// This client is `plain` with its secret, if it has one, encoded under `policy`:
    /// all else is the same, and checking the secret against the kept data succeeds.
    pub open spec fn is_encoding_of(self, plain: ClientView, policy: PasswordPolicy) -> bool {
        &&& self.client_id == plain.client_id
        &&& self.redirect_uri == plain.redirect_uri
        &&& self.additional_redirect_uris == plain.additional_redirect_uris
        &&& self.default_scope == plain.default_scope
        &&& self.passdata is Some <==> plain.passdata is Some
        &&& plain.passdata matches Some(secret) ==> policy.verdict(
            plain.client_id,
            secret,
            self.passdata->0,
        ) == Some(true)
    }

    /// What checking `secret` for this client gives under `policy`: a public client
    /// always passes; a confidential one passes with the secret its data was made from.
    pub open spec fn check(self, policy: PasswordPolicy, secret: Option<Seq<u8>>) -> Result<
        (),
        RegistrarError,
    > {
        match self.passdata {
            None => Ok(()),
            Some(kept) => match secret {
                None => Err(RegistrarError::AuthFailed),
                Some(offered) => verdict_result(policy.verdict(self.client_id, offered, kept)),
            },
        }
    }
}

/// A client as it is handed in for registration, with its secret in the clear.
#[derive(Debug)]
pub struct Client {
    client_id: String,
    redirect_uri: RegisteredUrl,
    additional_redirect_uris: Vec<RegisteredUrl>,
    default_scope: Scope,
    client_type: ClientType,
}

impl View for Client {
    type V = ClientView;

    closed spec fn view(&self) -> ClientView {
        ClientView {
            client_id: self.client_id@,
            redirect_uri: self.redirect_uri@,
            additional_redirect_uris: url_texts(self.additional_redirect_uris@),
            default_scope: self.default_scope@,
            passdata: self.client_type@,
        }
    }
}

impl Client {
    /// A public client.
    pub fn public(client_id: &str, redirect_uri: RegisteredUrl, default_scope: Scope) -> (client:
        Client)
        ensures
            client@ == (ClientView {
                client_id: client_id@,
                redirect_uri: redirect_uri@,
                additional_redirect_uris: Seq::empty(),
                default_scope: default_scope@,
                passdata: None,
            }),
    {
        let client = Client {
            client_id: client_id.to_owned(),
            redirect_uri,
            additional_redirect_uris: Vec::new(),
            default_scope,
            client_type: ClientType::Public,
        };
        assert(client@.additional_redirect_uris =~= Seq::empty());
        client
    }

    /// A confidential client with the secret `passphrase`.
    pub fn confidential(
        client_id: &str,
        redirect_uri: RegisteredUrl,
        default_scope: Scope,
        passphrase: &[u8],
    ) -> (client: Client)
        ensures
            client@ == (ClientView {
                client_id: client_id@,
                redirect_uri: redirect_uri@,
                additional_redirect_uris: Seq::empty(),
                default_scope: default_scope@,
                passdata: Some(passphrase@),
            }),
    {
        let client = Client {
            client_id: client_id.to_owned(),
            redirect_uri,
            additional_redirect_uris: Vec::new(),
            default_scope,
            client_type: ClientType::Confidential { passdata: slice_to_vec(passphrase) },
        };
        assert(client@.additional_redirect_uris =~= Seq::empty());
        client
    }

    /// The same client, with `uris` as its additional redirect URLs.
    pub fn with_additional_redirect_uris(self, uris: Vec<RegisteredUrl>) -> (client: Client)
        ensures
            client@ == (ClientView { additional_redirect_uris: url_texts(uris@), ..self@ }),
    {
        Client {
            client_id: self.client_id,
            redirect_uri: self.redirect_uri,
            additional_redirect_uris: uris,
            default_scope: self.default_scope,
            client_type: self.client_type,
        }
    }

    /// Whether `policy` can encode this client: its identifier and its secret are
    /// no longer than a policy takes.
    pub open spec fn encodable(self) -> bool {
        self@.passdata matches Some(secret) ==> byte_len(self@.client_id) <= MAX_HASHED_LEN
            && secret.len() <= MAX_HASHED_LEN
    }

    /// Whether the client can be encoded.
    pub fn is_encodable(&self) -> (fits: bool)
        ensures
            fits == self.encodable(),
    {
        match &self.client_type {
            ClientType::Public => true,
            ClientType::Confidential { passdata } => byte_count(self.client_id.as_str()) <= MAX_HASHED_LEN
                && passdata.len() <= MAX_HASHED_LEN,
        }
    }

    /// Replaces the secret of a confidential client by what `policy` makes of it.
    pub fn encode(self, policy: &PasswordPolicy) -> (encoded: EncodedClient)
        requires
            self.encodable(),
        ensures
            encoded@.is_encoding_of(self@, *policy),
    {
        let encoded_client = match self.client_type {
            ClientType::Public => ClientType::Public,
            ClientType::Confidential { passdata } => ClientType::Confidential {
                passdata: policy.store(self.client_id.as_str(), passdata.as_slice()),
            },
        };
        EncodedClient {
            client_id: self.client_id,
            redirect_uri: self.redirect_uri,
            additional_redirect_uris: self.additional_redirect_uris,
            default_scope: self.default_scope,
            encoded_client,
        }
    }
}

/// A client as it is kept: the secret of a confidential client is encoded.
#[derive(Debug)]
pub struct EncodedClient {
    /// The identifier under which the client is registered.
    pub client_id: String,
    /// The redirect URL used where a request names none.
    pub redirect_uri: RegisteredUrl,
    /// Further redirect URLs a request may name.
    pub additional_redirect_uris: Vec<RegisteredUrl>,
    /// The scope the client gets where it asks for nothing the server recognizes.
    pub default_scope: Scope,
    /// The kind of client, with the encoded secret of a confidential one.
    pub encoded_client: ClientType,
}

impl View for EncodedClient {
    type V = ClientView;

    open spec fn view(&self) -> ClientView {
        ClientView {
            client_id: self.client_id@,
            redirect_uri: self.redirect_uri@,
            additional_redirect_uris: url_texts(self.additional_redirect_uris@),
            default_scope: self.default_scope@,
            passdata: self.encoded_client@,
        }
    }
}

impl Clone for EncodedClient {
    fn clone(&self) -> (copy: Self)
        ensures
            copy@ == self@,
    {
        EncodedClient {
            client_id: self.client_id.clone(),
            redirect_uri: self.redirect_uri.clone(),
            additional_redirect_uris: clone_urls(&self.additional_redirect_uris),
            default_scope: self.default_scope.clone(),
            encoded_client: self.encoded_client.clone(),
        }
    }
}

impl EncodedClient {
    /// The registered URL that a request for `requested` is bound to: the client's
    /// own where the request names none, the named one where it is registered.
    pub open spec fn bound_url(client: ClientView, requested: Option<Seq<char>>) -> Option<Seq<char>> {
        match requested {
            None => Some(client.redirect_uri),
            Some(url) => if client.has_url(url) {
                Some(url)
            } else {
                None
            },
        }
    }

    /// Finds the registered URL that is, character by character, `requested`.
    pub fn find_url(&self, requested: &str) -> (found: Option<RegisteredUrl>)
        ensures
            found is Some <==> self@.has_url(requested@),
            found matches Some(url) ==> url@ == requested@,
    {
        if self.redirect_uri.is(requested) {
            return Some(self.redirect_uri.clone());
        }
        let mut i: usize = 0;
        while i < self.additional_redirect_uris.len()
            invariant
                i <= self.additional_redirect_uris.len(),
                self@.redirect_uri != requested@,
                forall|k: int| 0 <= k < i ==> self@.additional_redirect_uris[k] != requested@,
            decreases self.additional_redirect_uris.len() - i,
        {
            if self.additional_redirect_uris[i].is(requested) {
                assert(self@.additional_redirect_uris[i as int] == requested@);
                return Some(self.additional_redirect_uris[i].clone());
            }
            i += 1;
        }
        None
    }

    /// Checks the secret a client offers. A public client always passes, whatever it
    /// offers; a confidential client passes with the secret its data was made from
    /// and fails without a secret.
    pub fn check_authentication(&self, policy: &PasswordPolicy, passphrase: Option<&[u8]>) -> (checked:
        Result<(), RegistrarError>)
        ensures
            checked == self@.check(
                *policy,
                match passphrase {
                    Some(offered) => Some(offered@),
                    None => None,
                },
            ),
    {
        match &self.encoded_client {
            ClientType::Public => Ok(()),
            ClientType::Confidential { passdata } => match passphrase {
                None => Err(RegistrarError::AuthFailed),
                Some(offered) => policy.check(self.client_id.as_str(), offered, passdata.as_slice()),
            },
        }
    }
}

/// A client together with the redirect URL it asks for, if it names one.
#[derive(Clone, Debug, PartialEq, Eq)]
pub struct ClientUrl {
    /// The identifier the request names.
    pub client_id: String,
    /// The redirect URL the request names, as it was written.
    pub redirect_uri: Option<String>,
}

/// A client together with the registered redirect URL chosen for its request.
#[derive(Debug, PartialEq, Eq)]
pub struct BoundClient {
    /// The identifier of the client.
    pub client_id: String,
    /// The registered redirect URL.
    pub redirect_uri: RegisteredUrl,
}

/// What an authorization attempt is about, once negotiated: the client, its redirect
/// URL and the scope it may be granted.
#[derive(Debug, PartialEq, Eq)]
pub struct PreGrant {
    /// The identifier of the client.
    pub client_id: String,
    /// The registered redirect URL.
    pub redirect_uri: RegisteredUrl,
    /// The scope that the client may be granted.
    pub scope: Scope,
}

impl Clone for PreGrant {
    fn clone(&self) -> (copy: Self)
        ensures
            copy.client_id@ == self.client_id@,
            copy.redirect_uri@ == self.redirect_uri@,
            copy.scope@ == self.scope@,
    {
        PreGrant {
            client_id: self.client_id.clone(),
            redirect_uri: self.redirect_uri.clone(),
            scope: self.scope.clone(),
        }
    }
}

} // verus!
