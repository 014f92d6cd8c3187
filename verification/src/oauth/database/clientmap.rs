//! The registry of clients: who they are, where they may be redirected to, which
//! scope they get, and whether a secret they offer is theirs.

use vstd::prelude::*;

use crate::oauth::primitives::registrar::{
    BoundClient, Client, ClientUrl, ClientView, EncodedClient, PasswordPolicy, PreGrant,
    RegisteredUrl, RegistrarError, normalized_url,
};
use crate::oauth::primitives::scope::Scope;
use crate::oauth::primitives::table::{
    is_table, lemma_table_at, lemma_table_len, lemma_table_place, lemma_table_push,
    lemma_table_update, table,
};
use crate::oauth::scopes::{is_recognized, recognized, recognized_part};

verus! {

/// A registered client under the name it shows to users.
#[derive(Debug)]
pub struct ClientRecord {
    pub id: String,
    pub name: String,
    pub(crate) encoded_client: EncodedClient,
}

/// A registered client as plain values.
pub struct ClientRecordView {
    pub id: Seq<char>,
    pub name: Seq<char>,
    pub client: ClientView,
}

impl View for ClientRecord {
    type V = ClientRecordView;

    closed spec fn view(&self) -> ClientRecordView {
        ClientRecordView { id: self.id@, name: self.name@, client: self.encoded_client@ }
    }
}

impl Clone for ClientRecord {
    fn clone(&self) -> (copy: Self)
        ensures
            copy@ == self@,
    {
        ClientRecord {
            id: self.id.clone(),
            name: self.name.clone(),
            encoded_client: self.encoded_client.clone(),
        }
    }
}

impl ClientRecord {
    /// The name the client shows to users.
    pub fn name(&self) -> (name: String)
        ensures
            name@ == self@.name,
    {
        self.name.clone()
    }

    /// The client as it is kept.
    pub fn encoded_client(&self) -> (client: EncodedClient)
        ensures
            client@ == self@.client,
    {
        self.encoded_client.clone()
    }
}

/// The registered clients, found by their identifiers.
#[derive(Debug)]
pub struct ClientMap {
    pub(crate) clients: Vec<ClientRecord>,
    password_policy: PasswordPolicy,
}

impl View for ClientMap {
    type V = Map<Seq<char>, ClientRecordView>;

    closed spec fn view(&self) -> Map<Seq<char>, ClientRecordView> {
        table(self.ids(), self.records())
    }
}

impl Default for ClientMap {
    fn default() -> (map: Self)
        ensures
            map.wf(),
            map@ == Map::<Seq<char>, ClientRecordView>::empty(),
            map.policy() == PasswordPolicy::Argon2,
    {
        Self::new()
    }
}

impl ClientMap {
    /// The identifiers of the registered clients, in the order of their registration.
    pub closed spec fn ids(&self) -> Seq<Seq<char>> {
        Seq::new(self.clients@.len(), |i: int| self.clients@[i]@.id)
    }

    /// The registered clients, in the order of their registration.
    pub closed spec fn records(&self) -> Seq<ClientRecordView> {
        Seq::new(self.clients@.len(), |i: int| self.clients@[i]@)
    }

    /// No identifier is registered twice.
    pub closed spec fn wf(&self) -> bool {
        is_table(self.ids(), self.records())
    }

    /// The policy under which secrets are kept.
    pub closed spec fn policy(&self) -> PasswordPolicy {
        self.password_policy
    }

    /// The registry holds as many clients as its map has entries.
    pub proof fn lemma_count(&self)
        requires
            self.wf(),
        ensures
            self@.dom().finite(),
            self@.dom().len() == self.ids().len(),
    {
        lemma_table_len(self.ids(), self.records());
    }

    /// Every client is kept under its own identifier.
    pub proof fn lemma_keys(&self)
        requires
            self.wf(),
        ensures
            forall|id: Seq<char>| #[trigger] self@.contains_key(id) ==> self@[id].id == id,
    {
        assert forall|id: Seq<char>| #[trigger] self@.contains_key(id) implies self@[id].id == id by {
            let at = lemma_table_place(self.ids(), self.records(), id);
        }
    }

    /// A registry without clients that keeps secrets with Argon2.
    pub fn new() -> (map: ClientMap)
        ensures
            map.wf(),
            map@ == Map::<Seq<char>, ClientRecordView>::empty(),
            map.policy() == PasswordPolicy::Argon2,
    {
        ClientMap::with_policy(PasswordPolicy::Argon2)
    }

    /// A registry without clients that keeps secrets under `policy`.
    pub fn with_policy(policy: PasswordPolicy) -> (map: ClientMap)
        ensures
            map.wf(),
            map@ == Map::<Seq<char>, ClientRecordView>::empty(),
            map.policy() == policy,
    {
        let map = ClientMap { clients: Vec::new(), password_policy: policy };
        assert(map@ =~= Map::<Seq<char>, ClientRecordView>::empty());
        map
    }

    /// Changes how secrets are encoded from now on. Clients that are registered
    /// already keep the data made under the policy of their registration.
    pub fn set_password_policy(&mut self, new_policy: PasswordPolicy)
        ensures
            final(self)@ == old(self)@,
            final(self).ids() == old(self).ids(),
            final(self).wf() == old(self).wf(),
            final(self).policy() == new_policy,
    {
        self.password_policy = new_policy;
    }

    /// The policy under which secrets are kept.
    pub fn password_policy(&self) -> (policy: PasswordPolicy)
        ensures
            policy == self.policy(),
    {
        self.password_policy
    }

    /// Number of registered clients.
    pub fn len(&self) -> (count: usize)
        requires
            self.wf(),
        ensures
            count == self@.dom().len(),
    {
        proof {
            self.lemma_count();
        }
        self.clients.len()
    }

    /// The place of the client registered under `id`.
    fn position(&self, id: &str) -> (place: Option<usize>)
        requires
            self.wf(),
        ensures
            place is Some <==> self@.contains_key(id@),
            place matches Some(at) ==> at < self.clients.len() && self.ids()[at as int] == id@
                && self@[id@] == self.clients[at as int]@,
    {
        let mut i: usize = 0;
        while i < self.clients.len()
            invariant
                self.wf(),
                i <= self.clients.len(),
                forall|k: int| 0 <= k < i ==> self.ids()[k] != id@,
            decreases self.clients.len() - i,
        {
            if self.clients[i].id.as_str().eq(id) {
                proof {
                    lemma_table_at(self.ids(), self.records(), i as int);
                }
                return Some(i);
            }
            i += 1;
        }
        proof {
            if self@.contains_key(id@) {
                let at = lemma_table_place(self.ids(), self.records(), id@);
                assert(false);
            }
        }
        None
    }

    /// Registers `client` under `id` with the name `name`. Where a client is
    /// registered under `id` already, the new one takes its place.
    pub fn register_client(&mut self, id: &str, name: &str, client: Client)
        requires
            old(self).wf(),
            client.encodable(),
        ensures
            final(self).wf(),
            final(self).policy() == old(self).policy(),
            final(self)@.contains_key(id@),
            final(self)@ == old(self)@.insert(id@, final(self)@[id@]),
            final(self)@[id@].id == id@,
            final(self)@[id@].name == name@,
            final(self)@[id@].client.is_encoding_of(client@, old(self).policy()),
            final(self).ids().len() == old(self).ids().len() + (if old(self)@.contains_key(id@) {
                0int
            } else {
                1int
            }),
    {
        let policy = self.password_policy;
        let record = ClientRecord {
            id: id.to_owned(),
            name: name.to_owned(),
            encoded_client: client.encode(&policy),
        };
        let ghost ids = self.ids();
        let ghost records = self.records();
        match self.position(id) {
            Some(at) => {
                self.clients.set(at, record);
                proof {
                    assert(self.ids() =~= ids);
                    assert(self.records() =~= records.update(at as int, record@));
                    lemma_table_update(ids, records, at as int, record@);
                }
            },
            None => {
                self.clients.push(record);
                proof {
                    assert(self.ids() =~= ids.push(id@));
                    assert(self.records() =~= records.push(record@));
                    lemma_table_push(ids, records, id@, record@);
                }
            },
        }
    }

    /// The client registered under `id`.
    pub fn get(&self, id: &str) -> (found: Option<ClientRecord>)
        requires
            self.wf(),
        ensures
            found is Some <==> self@.contains_key(id@),
            found matches Some(record) ==> record@ == self@[id@],
    {
        match self.position(id) {
            Some(at) => Some(self.clients[at].clone()),
            None => None,
        }
    }

    /// Chooses the redirect URL for a request of the client `bound.client_id`.
    ///
    /// The URL the request names is brought into its normal form and must then be,
    /// character by character, one of the client's registered URLs.
    pub fn bound_redirect(&self, bound: ClientUrl) -> (chosen: Result<BoundClient, RegistrarError>)
        requires
            self.wf(),
        ensures
            bind_result(
                self@,
                bound.client_id@,
                match bound.redirect_uri {
                    Some(written) => Some(normalized_url(written@)),
                    None => None,
                },
            ) == (match chosen {
                Ok(client) => Ok::<Seq<char>, RegistrarError>(client.redirect_uri@),
                Err(error) => Err::<Seq<char>, RegistrarError>(error),
            }),
            chosen matches Ok(client) ==> client.client_id@ == bound.client_id@,
    {
        let requested = match &bound.redirect_uri {
            Some(written) => Some(RegisteredUrl::parse(written.as_str())),
            None => None,
        };
        self.bind(bound.client_id, requested)
    }

    /// Chooses the redirect URL for a request of the client `client_id`, where
    /// `requested` is `None` for a request that names no URL, and else the normal
    /// form of the URL it names, or `None` where the text it names is no URL.
    pub fn bind(&self, client_id: String, requested: Option<Option<RegisteredUrl>>) -> (chosen:
        Result<BoundClient, RegistrarError>)
        requires
            self.wf(),
        ensures
            bind_result(
                self@,
                client_id@,
                match requested {
                    Some(Some(url)) => Some(Some(url@)),
                    Some(None) => Some(None),
                    None => None,
                },
            ) == (match chosen {
                Ok(client) => Ok::<Seq<char>, RegistrarError>(client.redirect_uri@),
                Err(error) => Err::<Seq<char>, RegistrarError>(error),
            }),
            chosen matches Ok(client) ==> client.client_id@ == client_id@,
    {
        let at = match self.position(client_id.as_str()) {
            Some(at) => at,
            None => {
                return Err(RegistrarError::UnknownClient);
            },
        };
        let client = &self.clients[at].encoded_client;
        let redirect_uri = match requested {
            None => client.redirect_uri.clone(),
            Some(None) => {
                return Err(RegistrarError::RedirectMismatch);
            },
            Some(Some(url)) => match client.find_url(url.as_str()) {
                Some(registered) => registered,
                None => {
                    return Err(RegistrarError::RedirectMismatch);
                },
            },
        };
        Ok(BoundClient { client_id, redirect_uri })
    }

    /// Settles the scope of a request of the client `bound.client_id`: the tokens
    /// asked for that the server recognizes or, where there is none, the client's
    /// default scope.
    pub fn negotiate(&self, bound: BoundClient, scope: Option<Scope>) -> (settled: Result<
        PreGrant,
        RegistrarError,
    >)
        requires
            self.wf(),
        ensures
            settled is Ok <==> self@.contains_key(bound.client_id@),
            settled matches Err(error) ==> error == RegistrarError::UnknownClient,
            settled matches Ok(grant) ==> {
                &&& grant.client_id@ == bound.client_id@
                &&& grant.redirect_uri@ == bound.redirect_uri@
                &&& grant.scope@ == effective_scope(
                    match scope {
                        Some(asked) => Some(asked@),
                        None => None,
                    },
                    self@[bound.client_id@].client.default_scope,
                )
            },
    {
        let at = match self.position(bound.client_id.as_str()) {
            Some(at) => at,
            None => {
                return Err(RegistrarError::UnknownClient);
            },
        };
        let client = &self.clients[at].encoded_client;
        let granted = match scope {
            Some(asked) => {
                let known = recognized(&asked);
                if known.is_empty() {
                    client.default_scope.clone()
                } else {
                    known
                }
            },
            None => client.default_scope.clone(),
        };
        Ok(PreGrant { client_id: bound.client_id, redirect_uri: bound.redirect_uri, scope: granted })
    }

    /// Checks the secret that the client `client_id` offers. An unknown client is
    /// answered like a wrong secret.
    pub fn check(&self, client_id: &str, passphrase: Option<&[u8]>) -> (checked: Result<
        (),
        RegistrarError,
    >)
        requires
            self.wf(),
        ensures
            checked == check_result(
                self@,
                self.policy(),
                client_id@,
                match passphrase {
                    Some(offered) => Some(offered@),
                    None => None,
                },
            ),
    {
        match self.position(client_id) {
            Some(at) => self.clients[at].encoded_client.check_authentication(
                &self.password_policy,
                passphrase,
            ),
            None => Err(RegistrarError::AuthFailed),
        }
    }
}

/// The redirect URL chosen for a request of the client `client_id`. `requested` is
/// `None` where the request names no URL, `Some(None)` where what it names is no URL,
/// and else the normal form of the URL it names.
pub open spec fn bind_result(
    clients: Map<Seq<char>, ClientRecordView>,
    client_id: Seq<char>,
    requested: Option<Option<Seq<char>>>,
) -> Result<Seq<char>, RegistrarError> {
    if !clients.contains_key(client_id) {
        Err(RegistrarError::UnknownClient)
    } else {
        let client = clients[client_id].client;
        match requested {
            None => Ok(client.redirect_uri),
            Some(None) => Err(RegistrarError::RedirectMismatch),
            Some(Some(url)) => if client.has_url(url) {
                Ok(url)
            } else {
                Err(RegistrarError::RedirectMismatch)
            },
        }
    }
}

/// The scope a request is settled on: the recognized tokens among those asked for
/// or, where there is none, the default scope.
pub open spec fn effective_scope(asked: Option<Set<Seq<char>>>, default_scope: Set<Seq<char>>) -> Set<
    Seq<char>,
> {
    match asked {
        Some(tokens) => if recognized_part(tokens) == Set::<Seq<char>>::empty() {
            default_scope
        } else {
            recognized_part(tokens)
        },
        None => default_scope,
    }
}

/// What checking `secret` for the client `client_id` gives: an unknown client fails
/// as a client with a wrong secret does.
pub open spec fn check_result(
    clients: Map<Seq<char>, ClientRecordView>,
    policy: PasswordPolicy,
    client_id: Seq<char>,
    secret: Option<Seq<u8>>,
) -> Result<(), RegistrarError> {
    if clients.contains_key(client_id) {
        clients[client_id].client.check(policy, secret)
    } else {
        Err(RegistrarError::AuthFailed)
    }
}


/// A confidential client passes the check with the secret it was registered with,
/// as long as the policy is the one of its registration.
pub proof fn law_confidential_client_passes_with_its_secret(
    clients: Map<Seq<char>, ClientRecordView>,
    policy: PasswordPolicy,
    client_id: Seq<char>,
    plain: ClientView,
    secret: Seq<u8>,
)
    requires
        clients.contains_key(client_id),
        clients[client_id].client.is_encoding_of(plain, policy),
        plain.passdata == Some(secret),
    ensures
        check_result(clients, policy, client_id, Some(secret)) == Ok::<(), RegistrarError>(()),
{
}

/// A confidential client fails the check with every secret that the policy does
/// not accept for it, and fails without a secret.
pub proof fn law_confidential_client_fails_otherwise(
    clients: Map<Seq<char>, ClientRecordView>,
    policy: PasswordPolicy,
    client_id: Seq<char>,
    secret: Seq<u8>,
)
    requires
        clients.contains_key(client_id),
        clients[client_id].client.passdata is Some,
    ensures
        policy.verdict(
            clients[client_id].client.client_id,
            secret,
            clients[client_id].client.passdata->0,
        ) == Some(false) ==> check_result(clients, policy, client_id, Some(secret)) == Err::<
            (),
            RegistrarError,
        >(RegistrarError::AuthFailed),
        check_result(clients, policy, client_id, None) == Err::<(), RegistrarError>(
            RegistrarError::AuthFailed,
        ),
{
}

/// Under the policy that keeps secrets as they are, a confidential client fails the
/// check with every secret but its own.
pub proof fn law_plain_policy_refuses_wrong_secret(
    clients: Map<Seq<char>, ClientRecordView>,
    client_id: Seq<char>,
    plain: ClientView,
    secret: Seq<u8>,
    wrong: Seq<u8>,
)
    requires
        clients.contains_key(client_id),
        clients[client_id].client.is_encoding_of(plain, PasswordPolicy::Plain),
        plain.passdata == Some(secret),
        wrong != secret,
    ensures
        check_result(clients, PasswordPolicy::Plain, client_id, Some(wrong)) == Err::<
            (),
            RegistrarError,
        >(RegistrarError::AuthFailed),
{
}

/// A public client passes the check whatever it offers.
pub proof fn law_public_client_always_passes(
    clients: Map<Seq<char>, ClientRecordView>,
    policy: PasswordPolicy,
    client_id: Seq<char>,
    secret: Option<Seq<u8>>,
)
    requires
        clients.contains_key(client_id),
        clients[client_id].client.is_public(),
    ensures
        check_result(clients, policy, client_id, secret) == Ok::<(), RegistrarError>(()),
{
}

/// A request that names a URL which is, as a whole, none of the client's registered
/// URLs is refused as a mismatch, however much of a registered URL it shares.
pub proof fn law_unregistered_url_is_a_mismatch(
    clients: Map<Seq<char>, ClientRecordView>,
    client_id: Seq<char>,
    requested: Option<Seq<char>>,
)
    requires
        clients.contains_key(client_id),
        requested matches Some(url) ==> !clients[client_id].client.has_url(url),
    ensures
        bind_result(clients, client_id, Some(requested)) == Err::<Seq<char>, RegistrarError>(
            RegistrarError::RedirectMismatch,
        ),
{
}

/// A request is settled on recognized tokens that it asked for or, where it asked
/// for none, on the default scope; a request that names no scope gets the default.
pub proof fn law_settled_scope(asked: Option<Set<Seq<char>>>, default_scope: Set<Seq<char>>)
    ensures
        effective_scope(None, default_scope) == default_scope,
        effective_scope(asked, default_scope) != default_scope ==> asked is Some && effective_scope(
            asked,
            default_scope,
        ).subset_of(asked->0) && (forall|token: Seq<char>| #[trigger]
            effective_scope(asked, default_scope).contains(token) ==> is_recognized(token)),
{
}

/// Where the default scope of a client holds recognized tokens only, so does every
/// scope a request of the client is settled on.
pub proof fn law_settled_scope_is_recognized(
    asked: Option<Set<Seq<char>>>,
    default_scope: Set<Seq<char>>,
)
    requires
        forall|token: Seq<char>| #[trigger] default_scope.contains(token) ==> is_recognized(token),
    ensures
        forall|token: Seq<char>| #[trigger]
            effective_scope(asked, default_scope).contains(token) ==> is_recognized(token),
{
}

/// Asking for a recognized token together with an unknown one settles on the
/// recognized token alone.
pub proof fn law_unknown_token_is_dropped(
    known: Seq<char>,
    unknown: Seq<char>,
    default_scope: Set<Seq<char>>,
)
    requires
        is_recognized(known),
        !is_recognized(unknown),
    ensures
        effective_scope(Some(set![known, unknown]), default_scope) == set![known],
{
    let asked = set![known, unknown];
    assert(recognized_part(asked) =~= set![known]);
    assert(set![known].contains(known));
}

} // verus!
