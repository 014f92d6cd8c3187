//! The store of users and clients, and of what each user has granted to each client.

use vstd::prelude::*;

use self::clientmap::{ClientMap, ClientRecordView};
use self::resource::client::ClientName;
use self::resource::user::AuthUser;
use crate::oauth::models::{ClientId, UserId, ID_LENGTH};
use self::clientmap::{bind_result, check_result, effective_scope};
use crate::oauth::primitives::generator::{is_safe_text, lemma_safe_text_bytes, random_text};
use crate::oauth::primitives::registrar::{
    byte_count, byte_len, normalized_url, BoundClient, Client, ClientUrl, ClientView,
    PasswordPolicy, PreGrant, RegisteredUrl, RegistrarError, MAX_HASHED_LEN,
};
use crate::oauth::primitives::scope::{is_scope_text, tokens_of};
use crate::oauth::primitives::secret::Secret;
use crate::oauth::primitives::scope::Scope;
use crate::oauth::primitives::table::{
    is_table, lemma_table_at, lemma_table_place, lemma_table_push, lemma_table_update, table,
};

pub mod clientmap;
pub mod resource;

verus! {

/// Why the store refused a request.
#[derive(Clone, Copy, Debug, PartialEq, Eq, Structural)]
pub enum StoreError {
    /// No record is kept under the identifier or name.
    DoesNotExist,
    /// A record is kept under the name or identifier already.
    DuplicateRecord,
    /// Kept data cannot be used.
    InternalError,
    /// A required text is empty, too long, or not of the form it has to have.
    InvalidInput,
    /// The user name and the password do not belong together.
    InvalidCredentials,
}

impl StoreError {
    pub fn to_string(&self) -> (text: String)
        ensures
            text@ == (match *self {
                StoreError::DoesNotExist => "the record does not exist"@,
                StoreError::DuplicateRecord => "attempted to insert duplicate record"@,
                StoreError::InternalError => "an unexpected internal error occurred"@,
                StoreError::InvalidInput => "the input is not valid"@,
                StoreError::InvalidCredentials => "the credentials are not valid"@,
            }),
    {
        match self {
            StoreError::DoesNotExist => "the record does not exist".to_owned(),
            StoreError::DuplicateRecord => "attempted to insert duplicate record".to_owned(),
            StoreError::InternalError => "an unexpected internal error occurred".to_owned(),
            StoreError::InvalidInput => "the input is not valid".to_owned(),
            StoreError::InvalidCredentials => "the credentials are not valid".to_owned(),
        }
    }
}

/// What a user has granted to one client: every token the user ever allowed it.
#[derive(Debug, PartialEq, Eq)]
pub struct ClientAuthorization {
    pub client_id: ClientId,
    pub scope: Scope,
}

impl Clone for ClientAuthorization {
    fn clone(&self) -> (copy: Self)
        ensures
            copy.client_id@ == self.client_id@,
            copy.scope@ == self.scope@,
    {
        ClientAuthorization { client_id: self.client_id.clone(), scope: self.scope.clone() }
    }
}

/// A user as plain values. `clients` lists the clients the user has granted
/// something to, in the order of the first grant; `scopes` holds, at the same
/// place, what each was granted.
pub struct UserRecordView {
    pub id: Seq<char>,
    pub username: Seq<char>,
    pub given_name: Seq<char>,
    pub password: Seq<u8>,
    pub clients: Seq<Seq<char>>,
    pub scopes: Seq<Set<Seq<char>>>,
}

impl UserRecordView {
    /// What the user has granted, by client.
    pub open spec fn granted(self) -> Map<Seq<char>, Set<Seq<char>>> {
        table(self.clients, self.scopes)
    }

    /// No client is listed twice.
    pub open spec fn wf(self) -> bool {
        is_table(self.clients, self.scopes) && self.id.len() == ID_LENGTH
    }

    /// The user after granting `scope` to `client`: what the client had is widened by
    /// `scope`; a client that had nothing is added at the end with `scope`.
    pub open spec fn widened(self, client: Seq<char>, scope: Set<Seq<char>>) -> UserRecordView {
        if self.clients.contains(client) {
            let at = self.clients.index_of(client);
            UserRecordView { scopes: self.scopes.update(at, self.scopes[at].union(scope)), ..self }
        } else {
            UserRecordView {
                clients: self.clients.push(client),
                scopes: self.scopes.push(scope),
                ..self
            }
        }
    }
}

/// Widening keeps the list well formed, never takes a token away, and gives the
/// client the union of what it had and what was granted.
pub proof fn lemma_widened(user: UserRecordView, client: Seq<char>, scope: Set<Seq<char>>)
    requires
        user.wf(),
    ensures
        user.widened(client, scope).wf(),
        user.widened(client, scope).granted() == user.granted().insert(
            client,
            if user.granted().contains_key(client) {
                user.granted()[client].union(scope)
            } else {
                scope
            },
        ),
        forall|other: Seq<char>| #[trigger]
            user.granted().contains_key(other) ==> user.widened(client, scope).granted().contains_key(
                other,
            ) && user.granted()[other].subset_of(user.widened(client, scope).granted()[other]),
{
    if user.clients.contains(client) {
        let at = user.clients.index_of(client);
        lemma_table_at(user.clients, user.scopes, at);
        lemma_table_update(user.clients, user.scopes, at, user.scopes[at].union(scope));
    } else {
        lemma_table_push(user.clients, user.scopes, client, scope);
    }
}

/// A user of the server.
#[derive(Debug)]
pub struct UserRecord {
    id: UserId,
    given_name: String,
    username: String,
    password: Vec<u8>,
    authorized_clients: Vec<ClientAuthorization>,
}

impl View for UserRecord {
    type V = UserRecordView;

    closed spec fn view(&self) -> UserRecordView {
        UserRecordView {
            id: self.id@,
            username: self.username@,
            given_name: self.given_name@,
            password: self.password@,
            clients: Seq::new(
                self.authorized_clients@.len(),
                |i: int| self.authorized_clients@[i].client_id@,
            ),
            scopes: Seq::new(
                self.authorized_clients@.len(),
                |i: int| self.authorized_clients@[i].scope@,
            ),
        }
    }
}

impl Clone for UserRecord {
    fn clone(&self) -> (copy: Self)
        ensures
            copy@ == self@,
    {
        let mut authorized_clients: Vec<ClientAuthorization> = Vec::new();
        let mut i: usize = 0;
        while i < self.authorized_clients.len()
            invariant
                i <= self.authorized_clients.len(),
                authorized_clients.len() == i,
                forall|k: int|
                    0 <= k < i ==> authorized_clients[k].client_id@
                        == self.authorized_clients[k].client_id@ && authorized_clients[k].scope@
                        == self.authorized_clients[k].scope@,
            decreases self.authorized_clients.len() - i,
        {
            authorized_clients.push(self.authorized_clients[i].clone());
            i += 1;
        }
        let copy = UserRecord {
            id: self.id.clone(),
            given_name: self.given_name.clone(),
            username: self.username.clone(),
            password: self.password.clone(),
            authorized_clients,
        };
        proof {
            assert(copy@.clients =~= self@.clients);
            assert(copy@.scopes =~= self@.scopes);
        }
        copy
    }
}

impl UserRecord {
    /// No client is listed twice among those the user has granted something to.
    pub open spec fn wf(&self) -> bool {
        self@.wf()
    }

    /// A user who has granted nothing yet. `password` is the data that a password
    /// policy has made of the user's password.
    pub fn new(id: UserId, user: &str, password: Vec<u8>, given_name: &str) -> (record: UserRecord)
        ensures
            record.wf(),
            record@ == (UserRecordView {
                id: id@,
                username: user@,
                given_name: given_name@,
                password: password@,
                clients: Seq::empty(),
                scopes: Seq::empty(),
            }),
    {
        let _ = id.as_str();
        let record = UserRecord {
            id,
            username: user.to_owned(),
            password,
            authorized_clients: Vec::new(),
            given_name: given_name.to_owned(),
        };
        proof {
            assert(record@.clients =~= Seq::empty());
            assert(record@.scopes =~= Seq::empty());
        }
        record
    }

    /// The user name, unless it is empty.
    pub fn username(&self) -> (name: Option<String>)
        ensures
            name is Some <==> self@.username.len() > 0,
            name matches Some(text) ==> text@ == self@.username,
    {
        if !self.username.as_str().is_empty() {
            return Some(self.username.clone());
        }
        None
    }

    /// The given name, unless it is empty.
    pub fn given_name(&self) -> (name: Option<String>)
        ensures
            name is Some <==> self@.given_name.len() > 0,
            name matches Some(text) ==> text@ == self@.given_name,
    {
        if !self.given_name.as_str().is_empty() {
            return Some(self.given_name.clone());
        }
        None
    }

    /// The identifier, unless the user name is empty.
    pub fn id(&self) -> (id: Option<UserId>)
        ensures
            id is Some <==> self@.username.len() > 0,
            id matches Some(own) ==> own@ == self@.id,
    {
        if !self.username.as_str().is_empty() {
            return Some(self.id.clone());
        }
        None
    }

    /// The data kept of the user's password.
    pub fn password(&self) -> (kept: &[u8])
        ensures
            kept@ == self@.password,
    {
        self.password.as_slice()
    }

    /// The place of `client_id` among the clients the user has granted something to.
    fn position(&self, client_id: &ClientId) -> (place: Option<usize>)
        requires
            self.wf(),
        ensures
            place is Some <==> self@.granted().contains_key(client_id@),
            place is Some <==> self@.clients.contains(client_id@),
            place matches Some(at) ==> at < self.authorized_clients.len() && self@.clients.index_of(
                client_id@,
            ) == at && self@.clients[at as int] == client_id@ && self@.granted()[client_id@]
                == self@.scopes[at as int],
    {
        let mut i: usize = 0;
        while i < self.authorized_clients.len()
            invariant
                self.wf(),
                i <= self.authorized_clients.len(),
                forall|k: int| 0 <= k < i ==> self@.clients[k] != client_id@,
            decreases self.authorized_clients.len() - i,
        {
            if self.authorized_clients[i].client_id.same(client_id) {
                proof {
                    lemma_table_at(self@.clients, self@.scopes, i as int);
                }
                return Some(i);
            }
            i += 1;
        }
        None
    }

    /// What the user has granted to `client_id`, if anything.
    pub fn authorization_for(&self, client_id: &ClientId) -> (granted: Option<Scope>)
        requires
            self.wf(),
        ensures
            granted is Some <==> self@.granted().contains_key(client_id@),
            granted matches Some(scope) ==> scope@ == self@.granted()[client_id@],
    {
        match self.position(client_id) {
            Some(at) => Some(self.authorized_clients[at].scope.clone()),
            None => None,
        }
    }

    /// Grants `scope` to `client_id`: what the client had is widened by `scope`, and a
    /// client that had nothing is added with `scope`. No token is ever taken away.
    pub fn add_authorized_client(&mut self, client_id: ClientId, scope: Scope)
        requires
            old(self).wf(),
        ensures
            final(self).wf(),
            final(self)@ == old(self)@.widened(client_id@, scope@),
    {
        let ghost before = self@;
        match self.position(&client_id) {
            Some(at) => {
                let widened = self.authorized_clients[at].scope.union(&scope);
                self.authorized_clients.set(at, ClientAuthorization { client_id, scope: widened });
                proof {
                    assert(self@.clients =~= before.clients);
                    assert(self@.scopes =~= before.scopes.update(
                        at as int,
                        before.scopes[at as int].union(scope@),
                    ));
                }
            },
            None => {
                self.authorized_clients.push(ClientAuthorization { client_id, scope });
                proof {
                    assert(self@.clients =~= before.clients.push(client_id@));
                    assert(self@.scopes =~= before.scopes.push(scope@));
                }
            },
        }
        proof {
            lemma_widened(before, client_id@, scope@);
        }
    }

    /// The clients the user has granted something to, with what each was granted, in
    /// the order of the first grant.
    pub fn get_authorized_clients(&self) -> (list: &Vec<ClientAuthorization>)
        ensures
            list@.len() == self@.clients.len(),
            forall|i: int|
                0 <= i < list@.len() ==> (#[trigger] list@[i]).client_id@ == self@.clients[i]
                    && list@[i].scope@ == self@.scopes[i],
    {
        &self.authorized_clients
    }

    /// Changes the given name.
    pub fn update_given_name(&mut self, name: &str)
        ensures
            final(self)@ == (UserRecordView { given_name: name@, ..old(self)@ }),
    {
        self.given_name = name.to_owned();
    }
}

/// What the store holds.
#[derive(Debug)]
pub struct Inner {
    pub(crate) user_db: Vec<UserRecord>,
    pub(crate) client_db: ClientMap,
}

/// The store of users and clients.
#[derive(Debug)]
pub struct Database {
    pub(crate) inner: Inner,
}

impl Default for Database {
    fn default() -> (db: Self)
        ensures
            db.wf(),
            db.users() == Map::<Seq<char>, UserRecordView>::empty(),
            db.names() == Map::<Seq<char>, Seq<char>>::empty(),
            db.clients() == Map::<Seq<char>, ClientRecordView>::empty(),
            db.policy() == PasswordPolicy::Argon2,
    {
        Self::new()
    }
}

impl Database {
    /// The identifiers of the users, in the order of their registration.
    pub closed spec fn user_ids(&self) -> Seq<Seq<char>> {
        Seq::new(self.inner.user_db@.len(), |i: int| self.inner.user_db@[i]@.id)
    }

    /// The user names, in the order of registration.
    pub closed spec fn usernames(&self) -> Seq<Seq<char>> {
        Seq::new(self.inner.user_db@.len(), |i: int| self.inner.user_db@[i]@.username)
    }

    /// The users, in the order of their registration.
    pub closed spec fn user_records(&self) -> Seq<UserRecordView> {
        Seq::new(self.inner.user_db@.len(), |i: int| self.inner.user_db@[i]@)
    }

    /// The users by identifier.
    pub closed spec fn users(&self) -> Map<Seq<char>, UserRecordView> {
        table(self.user_ids(), self.user_records())
    }

    /// The identifier of each user by user name.
    pub closed spec fn names(&self) -> Map<Seq<char>, Seq<char>> {
        table(self.usernames(), self.user_ids())
    }

    /// The clients by identifier.
    pub closed spec fn clients(&self) -> Map<Seq<char>, ClientRecordView> {
        self.inner.client_db@
    }

    /// The policy under which passwords and client secrets are kept.
    pub closed spec fn policy(&self) -> PasswordPolicy {
        self.inner.client_db.policy()
    }

    /// No identifier and no user name is kept twice, every record is well formed, and
    /// every client is kept under an identifier of `ID_LENGTH` characters.
    pub closed spec fn wf(&self) -> bool {
        &&& self.inner.client_db.wf()
        &&& forall|id: Seq<char>| #[trigger]
            self.inner.client_db@.contains_key(id) ==> id.len() == ID_LENGTH
        &&& is_table(self.user_ids(), self.user_records())
        &&& self.usernames().no_duplicates()
        &&& forall|i: int|
            0 <= i < self.user_records().len() ==> (#[trigger] self.user_records()[i]).wf()
                && self.user_records()[i].username.len() > 0
    }

    /// The user with the name `username`, if there is one.
    pub open spec fn user_named(&self, username: Seq<char>) -> Option<UserRecordView> {
        if self.names().contains_key(username) {
            Some(self.users()[self.names()[username]])
        } else {
            None
        }
    }

    /// What the user `user_id` has granted to the client `client_id`, if anything.
    pub open spec fn granted(&self, user_id: Seq<char>, client_id: Seq<char>) -> Option<Set<Seq<char>>> {
        if self.users().contains_key(user_id) && self.users()[user_id].granted().contains_key(
            client_id,
        ) {
            Some(self.users()[user_id].granted()[client_id])
        } else {
            None
        }
    }

    /// How the two maps of users belong together: each user is kept under its own
    /// identifier, and its name leads to that identifier.
    pub proof fn lemma_users(&self)
        requires
            self.wf(),
        ensures
            forall|id: Seq<char>| #[trigger]
                self.users().contains_key(id) ==> {
                    &&& self.users()[id].id == id
                    &&& self.users()[id].wf()
                    &&& self.users()[id].username.len() > 0
                    &&& self.names().contains_key(self.users()[id].username)
                    &&& self.names()[self.users()[id].username] == id
                },
            forall|name: Seq<char>| #[trigger]
                self.names().contains_key(name) ==> {
                    &&& self.users().contains_key(self.names()[name])
                    &&& self.users()[self.names()[name]].username == name
                },
    {
        assert forall|id: Seq<char>| #[trigger] self.users().contains_key(id) implies {
            &&& self.users()[id].id == id
            &&& self.users()[id].wf()
            &&& self.users()[id].username.len() > 0
            &&& self.names().contains_key(self.users()[id].username)
            &&& self.names()[self.users()[id].username] == id
        } by {
            let at = lemma_table_place(self.user_ids(), self.user_records(), id);
            assert(self.user_records()[at].wf());
            lemma_table_at(self.usernames(), self.user_ids(), at);
        }
        assert forall|name: Seq<char>| #[trigger] self.names().contains_key(name) implies {
            &&& self.users().contains_key(self.names()[name])
            &&& self.users()[self.names()[name]].username == name
        } by {
            let at = lemma_table_place(self.usernames(), self.user_ids(), name);
            lemma_table_at(self.user_ids(), self.user_records(), at);
        }
    }

    /// Every client is kept under its own identifier, which has `ID_LENGTH`
    /// characters.
    pub proof fn lemma_clients(&self)
        requires
            self.wf(),
        ensures
            forall|id: Seq<char>| #[trigger]
                self.clients().contains_key(id) ==> id.len() == ID_LENGTH && self.clients()[id].id
                    == id,
    {
        self.inner.client_db.lemma_keys();
    }

    /// An empty store that keeps passwords and secrets with Argon2.
    pub fn new() -> (db: Database)
        ensures
            db.wf(),
            db.users() == Map::<Seq<char>, UserRecordView>::empty(),
            db.names() == Map::<Seq<char>, Seq<char>>::empty(),
            db.clients() == Map::<Seq<char>, ClientRecordView>::empty(),
            db.policy() == PasswordPolicy::Argon2,
    {
        Database::with_policy(PasswordPolicy::Argon2)
    }

    /// An empty store that keeps passwords and secrets under `policy`.
    pub fn with_policy(policy: PasswordPolicy) -> (db: Database)
        ensures
            db.wf(),
            db.users() == Map::<Seq<char>, UserRecordView>::empty(),
            db.names() == Map::<Seq<char>, Seq<char>>::empty(),
            db.clients() == Map::<Seq<char>, ClientRecordView>::empty(),
            db.policy() == policy,
    {
        let db = Database {
            inner: Inner { user_db: Vec::new(), client_db: ClientMap::with_policy(policy) },
        };
        proof {
            assert(db.users() =~= Map::<Seq<char>, UserRecordView>::empty());
            assert(db.names() =~= Map::<Seq<char>, Seq<char>>::empty());
        }
        db
    }

    /// The place of the user with the identifier `id`.
    fn place_of_id(&self, id: &UserId) -> (place: Option<usize>)
        requires
            self.wf(),
        ensures
            place is Some <==> self.users().contains_key(id@),
            place matches Some(at) ==> at < self.inner.user_db.len() && self.user_ids()[at as int]
                == id@ && self.users()[id@] == self.inner.user_db[at as int]@,
    {
        let mut i: usize = 0;
        while i < self.inner.user_db.len()
            invariant
                self.wf(),
                i <= self.inner.user_db.len(),
                forall|k: int| 0 <= k < i ==> self.user_ids()[k] != id@,
            decreases self.inner.user_db.len() - i,
        {
            if self.inner.user_db[i].id.same(id) {
                proof {
                    lemma_table_at(self.user_ids(), self.user_records(), i as int);
                }
                return Some(i);
            }
            i += 1;
        }
        proof {
            if self.users().contains_key(id@) {
                let at = lemma_table_place(self.user_ids(), self.user_records(), id@);
                assert(false);
            }
        }
        None
    }

    /// The place of the user with the name `username`.
    fn place_of_name(&self, username: &str) -> (place: Option<usize>)
        requires
            self.wf(),
        ensures
            place is Some <==> self.names().contains_key(username@),
            place matches Some(at) ==> at < self.inner.user_db.len() && self.usernames()[at as int]
                == username@ && self.user_named(username@) == Some(self.inner.user_db[at as int]@),
    {
        let mut i: usize = 0;
        while i < self.inner.user_db.len()
            invariant
                self.wf(),
                i <= self.inner.user_db.len(),
                forall|k: int| 0 <= k < i ==> self.usernames()[k] != username@,
            decreases self.inner.user_db.len() - i,
        {
            if self.inner.user_db[i].username.as_str().eq(username) {
                proof {
                    lemma_table_at(self.usernames(), self.user_ids(), i as int);
                    lemma_table_at(self.user_ids(), self.user_records(), i as int);
                }
                return Some(i);
            }
            i += 1;
        }
        proof {
            if self.names().contains_key(username@) {
                let at = lemma_table_place(self.usernames(), self.user_ids(), username@);
                assert(false);
            }
        }
        None
    }

    /// The user with the identifier of `user`.
    pub fn get_user_by_id(&self, user: &AuthUser) -> (found: Result<UserRecord, StoreError>)
        requires
            self.wf(),
        ensures
            found is Ok <==> self.users().contains_key(user.user_id@),
            found matches Ok(record) ==> record@ == self.users()[user.user_id@] && record.wf()
                && record@.username.len() > 0,
            found matches Err(error) ==> error == StoreError::DoesNotExist,
    {
        match self.place_of_id(&user.user_id) {
            Some(at) => {
                proof {
                    assert(self.user_records()[at as int].wf());
                }
                Ok(self.inner.user_db[at].clone())
            },
            None => Err(StoreError::DoesNotExist),
        }
    }

    /// The user with the name `username`.
    pub fn get_user_by_name(&self, username: &str) -> (found: Result<UserRecord, StoreError>)
        requires
            self.wf(),
        ensures
            found is Ok <==> self.names().contains_key(username@),
            found matches Ok(record) ==> Some(record@) == self.user_named(username@) && record.wf()
                && record@.username == username@,
            found matches Err(error) ==> error == StoreError::DoesNotExist,
    {
        match self.place_of_name(username) {
            Some(at) => {
                proof {
                    assert(self.user_records()[at as int].wf());
                    assert(self.user_records()[at as int].username == self.usernames()[at as int]);
                }
                Ok(self.inner.user_db[at].clone())
            },
            None => Err(StoreError::DoesNotExist),
        }
    }

    /// Whether a user has the name `username`.
    pub fn contains_user_name(&self, username: &str) -> (known: bool)
        requires
            self.wf(),
        ensures
            known == self.names().contains_key(username@),
    {
        match self.get_user_by_name(username) {
            Ok(record) => record.username.as_str().eq(username),
            Err(_) => false,
        }
    }
}

/// A user name and a password that can be registered: the name is not empty, and
/// neither is longer than a password policy takes.
pub open spec fn is_registrable(username: Seq<char>, password: Seq<char>) -> bool {
    &&& username.len() > 0
    &&& byte_len(username) <= MAX_HASHED_LEN
    &&& byte_len(password) <= MAX_HASHED_LEN
}

/// The bytes of a password, which are what a password policy is given.
pub open spec fn password_bytes(password: Seq<char>) -> Seq<u8> {
    vstd::utf8::encode_utf8(password)
}

impl Database {
    /// Registers a user under a fresh identifier and keeps what the password policy
    /// makes of the password.
    ///
    /// A name that is taken is refused as a duplicate. Of the other names, an empty
    /// or overlong one is refused as invalid input, and so is an overlong password.
    /// The identifier is drawn at random; should it be taken, which is next to
    /// impossible, the registration is refused as a duplicate too. In every other
    /// case the user is registered.
    pub fn register_user(&mut self, username: &str, password: Secret, given_name: &str) -> (registered:
        Result<UserId, StoreError>)
        requires
            old(self).wf(),
        ensures
            final(self).wf(),
            final(self).clients() == old(self).clients(),
            final(self).policy() == old(self).policy(),
            old(self).names().contains_key(username@) ==> registered == Err::<UserId, StoreError>(
                StoreError::DuplicateRecord,
            ),
            registered == Err::<UserId, StoreError>(StoreError::InvalidInput) <==> !old(
                self,
            ).names().contains_key(username@) && !is_registrable(username@, password@),
            registered == Err::<UserId, StoreError>(StoreError::DuplicateRecord) ==> old(
                self,
            ).names().contains_key(username@) || exists|id: Seq<char>|
                id.len() == ID_LENGTH && is_safe_text(id) && #[trigger] old(self).users().contains_key(
                    id,
                ),
            registered matches Ok(id) ==> id@.len() == ID_LENGTH && is_safe_text(id@) && old(
                self,
            ).registers(
                *final(self),
                id@,
                username@,
                password@,
                given_name@,
            ),
            registered matches Err(error) ==> final(self).users() == old(self).users()
                && final(self).names() == old(self).names() && (error == StoreError::InvalidInput
                || error == StoreError::DuplicateRecord),
    {
        let id = UserId::new();
        let ghost drawn = id@;
        let registered = self.register_user_as(id, username, password, given_name);
        proof {
            if registered == Err::<UserId, StoreError>(StoreError::DuplicateRecord) && !old(
                self,
            ).names().contains_key(username@) {
                assert(old(self).users().contains_key(drawn));
            }
        }
        registered
    }

    /// `after` is this store with one more user, who has the identifier `id`, the
    /// name `username`, the given name `given_name`, has granted nothing, and whose
    /// kept password data accepts `password`.
    pub open spec fn registers(
        &self,
        after: Database,
        id: Seq<char>,
        username: Seq<char>,
        password: Seq<char>,
        given_name: Seq<char>,
    ) -> bool {
        let user = after.users()[id];
        &&& !self.users().contains_key(id)
        &&& !self.names().contains_key(username)
        &&& after.users() == self.users().insert(id, user)
        &&& after.names() == self.names().insert(username, id)
        &&& user.id == id
        &&& user.username == username
        &&& user.given_name == given_name
        &&& user.clients == Seq::<Seq<char>>::empty()
        &&& user.scopes == Seq::<Set<Seq<char>>>::empty()
        &&& self.policy().verdict(username, password_bytes(password), user.password) == Some(true)
    }

    /// Registers a user under the identifier `id`. A name that is taken is a
    /// duplicate, whatever else is wrong with the registration.
    pub fn register_user_as(
        &mut self,
        id: UserId,
        username: &str,
        password: Secret,
        given_name: &str,
    ) -> (registered: Result<UserId, StoreError>)
        requires
            old(self).wf(),
        ensures
            final(self).wf(),
            final(self).clients() == old(self).clients(),
            final(self).policy() == old(self).policy(),
            registered == (if old(self).names().contains_key(username@) {
                Err::<UserId, StoreError>(StoreError::DuplicateRecord)
            } else if !is_registrable(username@, password@) {
                Err::<UserId, StoreError>(StoreError::InvalidInput)
            } else if old(self).users().contains_key(id@) {
                Err::<UserId, StoreError>(StoreError::DuplicateRecord)
            } else {
                Ok::<UserId, StoreError>(id)
            }),
            registered is Ok ==> old(self).registers(
                *final(self),
                id@,
                username@,
                password@,
                given_name@,
            ),
            registered is Err ==> final(self).users() == old(self).users() && final(self).names()
                == old(self).names(),
    {
        if self.place_of_name(username).is_some() {
            return Err(StoreError::DuplicateRecord);
        }
        let text = password.expose_secret();
        if username.is_empty() || byte_count(username) > MAX_HASHED_LEN || byte_count(text)
            > MAX_HASHED_LEN {
            return Err(StoreError::InvalidInput);
        }
        if self.place_of_id(&id).is_some() {
            return Err(StoreError::DuplicateRecord);
        }
        let policy = self.inner.client_db.password_policy();
        let kept = policy.store(username, text.as_bytes());
        let record = UserRecord::new(id.clone(), username, kept, given_name);
        let ghost ids = self.user_ids();
        let ghost names = self.usernames();
        let ghost records = self.user_records();
        self.inner.user_db.push(record);
        proof {
            assert(self.user_ids() =~= ids.push(id@));
            assert(self.usernames() =~= names.push(username@));
            assert(self.user_records() =~= records.push(record@));
            assert(!ids.contains(id@)) by {
                if ids.contains(id@) {
                    lemma_table_at(ids, records, ids.index_of(id@));
                }
            }
            assert(!names.contains(username@)) by {
                if names.contains(username@) {
                    lemma_table_at(names, ids, names.index_of(username@));
                }
            }
            lemma_table_push(ids, records, id@, record@);
            lemma_table_push(names, ids, username@, id@);
            assert forall|i: int| 0 <= i < self.user_records().len() implies (
            #[trigger] self.user_records()[i]).wf() && self.user_records()[i].username.len() > 0 by {
                if i < records.len() {
                    assert(records[i].wf());
                }
            }
        }
        Ok(id)
    }

    /// Changes the given name of the user with the identifier of `user`.
    pub fn update_given_name_by_id(&mut self, user: &AuthUser, name: &str) -> (updated: Result<
        bool,
        StoreError,
    >)
        requires
            old(self).wf(),
        ensures
            final(self).wf(),
            final(self).clients() == old(self).clients(),
            final(self).policy() == old(self).policy(),
            final(self).names() == old(self).names(),
            updated == (if old(self).users().contains_key(user.user_id@) {
                Ok::<bool, StoreError>(true)
            } else {
                Err::<bool, StoreError>(StoreError::DoesNotExist)
            }),
            updated is Ok ==> final(self).users() == old(self).users().insert(
                user.user_id@,
                UserRecordView { given_name: name@, ..old(self).users()[user.user_id@] },
            ),
            updated is Err ==> final(self).users() == old(self).users(),
    {
        let at = match self.place_of_id(&user.user_id) {
            Some(at) => at,
            None => {
                return Err(StoreError::DoesNotExist);
            },
        };
        let mut record = self.inner.user_db[at].clone();
        record.update_given_name(name);
        self.replace_user(at, record);
        Ok(true)
    }

    /// Puts `record` in the place of the user at `at`, who has the same identifier
    /// and the same name.
    fn replace_user(&mut self, at: usize, record: UserRecord)
        requires
            old(self).wf(),
            at < old(self).inner.user_db.len(),
            record@.wf(),
            record@.id == old(self).inner.user_db[at as int]@.id,
            record@.username == old(self).inner.user_db[at as int]@.username,
        ensures
            final(self).wf(),
            final(self).clients() == old(self).clients(),
            final(self).policy() == old(self).policy(),
            final(self).names() == old(self).names(),
            final(self).users() == old(self).users().insert(record@.id, record@),
    {
        let ghost ids = self.user_ids();
        let ghost names = self.usernames();
        let ghost records = self.user_records();
        self.inner.user_db.set(at, record);
        proof {
            assert(self.user_ids() =~= ids);
            assert(self.usernames() =~= names);
            assert(self.user_records() =~= records.update(at as int, record@));
            lemma_table_update(ids, records, at as int, record@);
            assert forall|i: int| 0 <= i < self.user_records().len() implies (
            #[trigger] self.user_records()[i]).wf() && self.user_records()[i].username.len() > 0 by {
                assert(records[i].wf());
            }
        }
    }
}

/// What signing in with `password` gives for a user: the identifier with the right
/// password, the same refusal for a wrong one as for an unknown user.
pub open spec fn sign_in_result(
    policy: PasswordPolicy,
    user: Option<UserRecordView>,
    password: Seq<char>,
) -> Result<Seq<char>, StoreError> {
    match user {
        None => Err(StoreError::InvalidCredentials),
        Some(record) => match policy.verdict(
            record.username,
            password_bytes(password),
            record.password,
        ) {
            Some(true) => Ok(record.id),
            Some(false) => Err(StoreError::InvalidCredentials),
            None => Err(StoreError::InternalError),
        },
    }
}

impl Database {
    /// Checks that `password` is the password of the user `username`, and answers
    /// `true` where it is. A name that no user has is refused exactly as a wrong
    /// password is, so that the answer does not tell which names are taken.
    pub fn verify_password(&self, username: &str, password: &str) -> (verified: Result<
        bool,
        StoreError,
    >)
        requires
            self.wf(),
        ensures
            verified == (match sign_in_result(
                self.policy(),
                self.user_named(username@),
                password@,
            ) {
                Ok(_) => Ok::<bool, StoreError>(true),
                Err(error) => Err::<bool, StoreError>(error),
            }),
    {
        match self.authenticate(username, password) {
            Ok(_) => Ok(true),
            Err(error) => Err(error),
        }
    }

    /// Signs a user in. An unknown name is refused exactly as a wrong password is.
    pub fn authenticate(&self, username: &str, password: &str) -> (signed_in: Result<
        UserId,
        StoreError,
    >)
        requires
            self.wf(),
        ensures
            sign_in_result(self.policy(), self.user_named(username@), password@) == (match signed_in {
                Ok(id) => Ok::<Seq<char>, StoreError>(id@),
                Err(error) => Err::<Seq<char>, StoreError>(error),
            }),
    {
        let at = match self.place_of_name(username) {
            Some(at) => at,
            None => {
                return Err(StoreError::InvalidCredentials);
            },
        };
        let policy = self.inner.client_db.password_policy();
        let record = &self.inner.user_db[at];
        match policy.verify(username, password.as_bytes(), record.password()) {
            Ok(true) => Ok(record.id.clone()),
            Ok(false) => Err(StoreError::InvalidCredentials),
            Err(_) => Err(StoreError::InternalError),
        }
    }

    /// What the user `user_id` has granted to the client `client_id`, or `None` where
    /// the user never granted it anything.
    pub fn get_scope(&self, user_id: &UserId, client_id: &ClientId) -> (granted: Option<Scope>)
        requires
            self.wf(),
        ensures
            granted is Some <==> self.granted(user_id@, client_id@) is Some,
            granted matches Some(scope) ==> Some(scope@) == self.granted(user_id@, client_id@),
    {
        match self.place_of_id(user_id) {
            Some(at) => {
                proof {
                    assert(self.user_records()[at as int].wf());
                }
                self.inner.user_db[at].authorization_for(client_id)
            },
            None => None,
        }
    }

    /// Grants `scope` to the client `client_id` in the name of the user `user_id`:
    /// what the client had is widened by `scope`. No token is ever taken away.
    pub fn update_client_scope(&mut self, user_id: &UserId, client_id: ClientId, scope: Scope) -> (updated:
        Result<(), StoreError>)
        requires
            old(self).wf(),
        ensures
            final(self).wf(),
            final(self).clients() == old(self).clients(),
            final(self).policy() == old(self).policy(),
            final(self).names() == old(self).names(),
            updated == (if old(self).users().contains_key(user_id@) {
                Ok::<(), StoreError>(())
            } else {
                Err::<(), StoreError>(StoreError::DoesNotExist)
            }),
            updated is Ok ==> final(self).users() == old(self).users().insert(
                user_id@,
                old(self).users()[user_id@].widened(client_id@, scope@),
            ),
            updated is Ok ==> final(self).granted(user_id@, client_id@) == Some(
                match old(self).granted(user_id@, client_id@) {
                    Some(had) => had.union(scope@),
                    None => scope@,
                },
            ),
            updated is Err ==> final(self).users() == old(self).users(),
    {
        let at = match self.place_of_id(user_id) {
            Some(at) => at,
            None => {
                return Err(StoreError::DoesNotExist);
            },
        };
        proof {
            assert(self.user_records()[at as int].wf());
            lemma_widened(self.user_records()[at as int], client_id@, scope@);
        }
        let mut record = self.inner.user_db[at].clone();
        record.add_authorized_client(client_id, scope);
        self.replace_user(at, record);
        Ok(())
    }
}

/// Number of characters of the secret made for a confidential client.
pub const SECRET_LENGTH: usize = 32;

/// The client that a registration describes, with its secret in the clear, or `None`
/// where the registration is not valid: the name is empty, `url` is `None` because
/// the text given was no URL, the default scope is no scope text, or the identifier
/// or the secret is longer than a password policy takes.
pub open spec fn described_client(
    id: Seq<char>,
    secret: Option<Seq<char>>,
    name: Seq<char>,
    url: Option<Seq<char>>,
    default_scope: Seq<char>,
) -> Option<ClientView> {
    if name.len() == 0 || url is None || !is_scope_text(default_scope) {
        None
    } else if secret is Some && (byte_len(id) > MAX_HASHED_LEN || byte_len(secret->0)
        > MAX_HASHED_LEN) {
        None
    } else {
        Some(
            ClientView {
                client_id: id,
                redirect_uri: url->0,
                additional_redirect_uris: Seq::empty(),
                default_scope: tokens_of(default_scope),
                passdata: match secret {
                    Some(text) => Some(password_bytes(text)),
                    None => None,
                },
            },
        )
    }
}

impl Database {
    /// `after` is this store with the client `plain` registered under `id` and the
    /// name `name`, its secret encoded.
    pub open spec fn registers_client(
        &self,
        after: Database,
        id: Seq<char>,
        name: Seq<char>,
        plain: ClientView,
    ) -> bool {
        let record = after.clients()[id];
        &&& !self.clients().contains_key(id)
        &&& after.clients() == self.clients().insert(id, record)
        &&& record.id == id
        &&& record.name == name
        &&& record.client.is_encoding_of(plain, self.policy())
    }

    /// Registers a public client under a fresh identifier and hands the identifier
    /// out. An empty name, a text that is no absolute URL and a text that is no scope
    /// are refused as invalid input. The identifier is drawn at random; should it be
    /// taken, which is next to impossible, the registration is refused as a
    /// duplicate. In every other case the client is registered.
    pub fn register_public_client(&mut self, client_name: &str, url: &str, default_scope: &str) -> (registered:
        Result<(String, Option<String>), StoreError>)
        requires
            old(self).wf(),
        ensures
            final(self).wf(),
            final(self).users() == old(self).users(),
            final(self).names() == old(self).names(),
            final(self).policy() == old(self).policy(),
            (client_name@.len() == 0 || normalized_url(url@) is None || !is_scope_text(
                default_scope@,
            )) <==> registered == Err::<(String, Option<String>), StoreError>(
                StoreError::InvalidInput,
            ),
            registered == Err::<(String, Option<String>), StoreError>(
                StoreError::DuplicateRecord,
            ) ==> exists|id: Seq<char>|
                id.len() == ID_LENGTH && is_safe_text(id) && #[trigger] old(
                    self,
                ).clients().contains_key(id),
            registered matches Ok((id, secret)) ==> secret is None && id@.len() == ID_LENGTH
                && old(self).registers_client(
                *final(self),
                id@,
                client_name@,
                described_client(id@, None, client_name@, normalized_url(url@), default_scope@)->0,
            ),
            registered matches Err(error) ==> final(self).clients() == old(self).clients() && (error
                == StoreError::InvalidInput || error == StoreError::DuplicateRecord),
    {
        let id = ClientId::new();
        let ghost drawn = id@;
        let registered = self.register_client_as(
            id,
            None,
            client_name,
            RegisteredUrl::parse(url),
            default_scope,
        );
        proof {
            if registered == Err::<(String, Option<String>), StoreError>(
                StoreError::DuplicateRecord,
            ) {
                assert(old(self).clients().contains_key(drawn));
            }
        }
        registered
    }

    /// Registers a confidential client under a fresh identifier with a fresh secret,
    /// and hands both out. The secret is handed out this once: the store keeps only
    /// what the password policy makes of it. The registration is refused and
    /// succeeds on the same inputs as that of a public client.
    pub fn register_confidential_client(
        &mut self,
        client_name: &str,
        url: &str,
        default_scope: &str,
    ) -> (registered: Result<(String, Option<String>), StoreError>)
        requires
            old(self).wf(),
        ensures
            final(self).wf(),
            final(self).users() == old(self).users(),
            final(self).names() == old(self).names(),
            final(self).policy() == old(self).policy(),
            (client_name@.len() == 0 || normalized_url(url@) is None || !is_scope_text(
                default_scope@,
            )) <==> registered == Err::<(String, Option<String>), StoreError>(
                StoreError::InvalidInput,
            ),
            registered == Err::<(String, Option<String>), StoreError>(
                StoreError::DuplicateRecord,
            ) ==> exists|id: Seq<char>|
                id.len() == ID_LENGTH && is_safe_text(id) && #[trigger] old(
                    self,
                ).clients().contains_key(id),
            registered matches Ok((id, secret)) ==> secret is Some && id@.len() == ID_LENGTH
                && secret->0@.len() == SECRET_LENGTH && is_safe_text(secret->0@) && described_client(
                id@,
                Some(secret->0@),
                client_name@,
                normalized_url(url@),
                default_scope@,
            ) is Some && old(self).registers_client(
                *final(self),
                id@,
                client_name@,
                described_client(
                    id@,
                    Some(secret->0@),
                    client_name@,
                    normalized_url(url@),
                    default_scope@,
                )->0,
            ),
            registered matches Err(error) ==> final(self).clients() == old(self).clients() && (error
                == StoreError::InvalidInput || error == StoreError::DuplicateRecord),
    {
        let id = ClientId::new();
        let secret = random_text(SECRET_LENGTH);
        proof {
            lemma_safe_text_bytes(id@);
            lemma_safe_text_bytes(secret@);
        }
        let ghost drawn = id@;
        let registered = self.register_client_as(
            id,
            Some(secret),
            client_name,
            RegisteredUrl::parse(url),
            default_scope,
        );
        proof {
            if registered == Err::<(String, Option<String>), StoreError>(
                StoreError::DuplicateRecord,
            ) {
                assert(old(self).clients().contains_key(drawn));
            }
        }
        registered
    }

    /// Registers a client under the identifier `id`: a confidential one with the
    /// secret `secret`, a public one where `secret` is `None`. `url` is the redirect
    /// URL, or `None` where the text given for it was no URL.
    ///
    /// An identifier that is taken is refused as a duplicate: a registration never
    /// replaces a client.
    pub fn register_client_as(
        &mut self,
        id: ClientId,
        secret: Option<String>,
        client_name: &str,
        url: Option<RegisteredUrl>,
        default_scope: &str,
    ) -> (registered: Result<(String, Option<String>), StoreError>)
        requires
            old(self).wf(),
        ensures
            final(self).wf(),
            final(self).users() == old(self).users(),
            final(self).names() == old(self).names(),
            final(self).policy() == old(self).policy(),
            registered is Ok <==> described_client(
                id@,
                option_text(secret),
                client_name@,
                option_url(url),
                default_scope@,
            ) is Some && !old(self).clients().contains_key(id@),
            registered matches Ok((handed_id, handed_secret)) ==> handed_id@ == id@ && option_text(
                handed_secret,
            ) == option_text(secret) && old(self).registers_client(
                *final(self),
                id@,
                client_name@,
                described_client(
                    id@,
                    option_text(secret),
                    client_name@,
                    option_url(url),
                    default_scope@,
                )->0,
            ),
            registered matches Err(error) ==> final(self).clients() == old(self).clients() && error
                == (if described_client(
                id@,
                option_text(secret),
                client_name@,
                option_url(url),
                default_scope@,
            ) is None {
                StoreError::InvalidInput
            } else {
                StoreError::DuplicateRecord
            }),
    {
        if client_name.is_empty() {
            return Err(StoreError::InvalidInput);
        }
        let redirect_uri = match url {
            Some(url) => url,
            None => {
                return Err(StoreError::InvalidInput);
            },
        };
        let scope = match Scope::from_str(default_scope) {
            Ok(scope) => scope,
            Err(_) => {
                return Err(StoreError::InvalidInput);
            },
        };
        let client = match &secret {
            Some(text) => Client::confidential(
                id.as_str(),
                redirect_uri,
                scope,
                text.as_str().as_bytes(),
            ),
            None => Client::public(id.as_str(), redirect_uri, scope),
        };
        if !client.is_encodable() {
            return Err(StoreError::InvalidInput);
        }
        if self.inner.client_db.get(id.as_str()).is_some() {
            return Err(StoreError::DuplicateRecord);
        }
        self.inner.client_db.register_client(id.as_str(), client_name, client);
        Ok((id.to_string(), secret))
    }

    /// The name of the client `client_id`.
    pub fn get_client_name(&self, client_id: &ClientId) -> (found: Result<ClientName, StoreError>)
        requires
            self.wf(),
        ensures
            found is Ok <==> self.clients().contains_key(client_id@),
            found matches Ok(name) ==> name.inner@ == self.clients()[client_id@].name,
            found matches Err(error) ==> error == StoreError::DoesNotExist,
    {
        match self.inner.client_db.get(client_id.as_str()) {
            Some(record) => Ok(ClientName { inner: record.name() }),
            None => Err(StoreError::DoesNotExist),
        }
    }
}

/// The text of an optional string.
pub open spec fn option_text(text: Option<String>) -> Option<Seq<char>> {
    match text {
        Some(text) => Some(text@),
        None => None,
    }
}

/// The normal form of an optional URL.
pub open spec fn option_url(url: Option<RegisteredUrl>) -> Option<Seq<char>> {
    match url {
        Some(url) => Some(url@),
        None => None,
    }
}

impl Database {
    /// Chooses the redirect URL for a request of a client, as the registry of clients
    /// does.
    pub fn bound_redirect(&self, bound: ClientUrl) -> (chosen: Result<BoundClient, RegistrarError>)
        requires
            self.wf(),
        ensures
            bind_result(
                self.clients(),
                bound.client_id@,
                match bound.redirect_uri {
                    Some(written) => Some(normalized_url(written@)),
                    None => None,
                },
            ) == (match chosen {
                Ok(client) => Ok::<Seq<char>, RegistrarError>(client.redirect_uri@),
                Err(error) => Err::<Seq<char>, RegistrarError>(error),
            }),
            chosen matches Ok(client) ==> client.client_id@ == bound.client_id@,
    {
        self.inner.client_db.bound_redirect(bound)
    }

    /// Settles the scope of a request of a client, as the registry of clients does.
    pub fn negotiate(&self, bound: BoundClient, scope: Option<Scope>) -> (settled: Result<
        PreGrant,
        RegistrarError,
    >)
        requires
            self.wf(),
        ensures
            settled is Ok <==> self.clients().contains_key(bound.client_id@),
            settled matches Err(error) ==> error == RegistrarError::UnknownClient,
            settled matches Ok(grant) ==> {
                &&& grant.client_id@ == bound.client_id@
                &&& grant.redirect_uri@ == bound.redirect_uri@
                &&& grant.scope@ == effective_scope(
                    match scope {
                        Some(asked) => Some(asked@),
                        None => None,
                    },
                    self.clients()[bound.client_id@].client.default_scope,
                )
            },
    {
        self.inner.client_db.negotiate(bound, scope)
    }

    /// Checks the secret that a client offers, as the registry of clients does.
    pub fn check(&self, client_id: &str, passphrase: Option<&[u8]>) -> (checked: Result<
        (),
        RegistrarError,
    >)
        requires
            self.wf(),
        ensures
            checked == check_result(
                self.clients(),
                self.policy(),
                client_id@,
                match passphrase {
                    Some(offered) => Some(offered@),
                    None => None,
                },
            ),
    {
        self.inner.client_db.check(client_id, passphrase)
    }

    /// Changes how passwords and secrets are encoded and checked from now on. What
    /// is kept already stays as it was made.
    pub fn set_password_policy(&mut self, new_policy: PasswordPolicy)
        requires
            old(self).wf(),
        ensures
            final(self).wf(),
            final(self).users() == old(self).users(),
            final(self).names() == old(self).names(),
            final(self).clients() == old(self).clients(),
            final(self).policy() == new_policy,
    {
        let ghost ids = self.user_ids();
        let ghost names = self.usernames();
        let ghost records = self.user_records();
        self.inner.client_db.set_password_policy(new_policy);
        proof {
            assert(self.user_ids() =~= ids);
            assert(self.usernames() =~= names);
            assert(self.user_records() =~= records);
        }
    }

    /// Number of registered clients.
    pub fn client_count(&self) -> (count: usize)
        requires
            self.wf(),
        ensures
            count == self.clients().dom().len(),
    {
        self.inner.client_db.len()
    }
}

/// Signing in under a name that no user has and signing in with a password that
/// the policy does not accept are refused with the same error.
pub proof fn law_sign_in_hides_which_failed(
    policy: PasswordPolicy,
    user: UserRecordView,
    password: Seq<char>,
    other_password: Seq<char>,
)
    requires
        policy.verdict(user.username, password_bytes(password), user.password) == Some(false),
    ensures
        sign_in_result(policy, Some(user), password) == Err::<Seq<char>, StoreError>(
            StoreError::InvalidCredentials,
        ),
        sign_in_result(policy, None, other_password) == sign_in_result(policy, Some(user), password),
{
}

/// A user signs in with the password of the registration.
pub proof fn law_registered_user_signs_in(
    before: Database,
    after: Database,
    id: Seq<char>,
    username: Seq<char>,
    password: Seq<char>,
    given_name: Seq<char>,
)
    requires
        after.wf(),
        after.policy() == before.policy(),
        before.registers(after, id, username, password, given_name),
    ensures
        sign_in_result(after.policy(), after.user_named(username), password) == Ok::<
            Seq<char>,
            StoreError,
        >(id),
{
    after.lemma_users();
    assert(after.names().contains_key(username));
    assert(after.names()[username] == id);
}

/// Registering a client adds exactly one client to the store and leaves every
/// other client as it was.
pub proof fn law_registration_adds_one_client(
    before: Database,
    after: Database,
    id: Seq<char>,
    name: Seq<char>,
    plain: ClientView,
)
    requires
        before.wf(),
        before.registers_client(after, id, name, plain),
    ensures
        after.clients().dom().len() == before.clients().dom().len() + 1,
        forall|other: Seq<char>| #[trigger]
            before.clients().contains_key(other) ==> after.clients().contains_key(other)
                && after.clients()[other] == before.clients()[other],
{
    before.inner.client_db.lemma_count();
}

/// Granting a scope takes nothing away: whatever any user had granted to any client
/// before is still granted afterwards.
pub proof fn law_grants_only_grow(
    before: Database,
    after: Database,
    user: Seq<char>,
    client: Seq<char>,
    scope: Set<Seq<char>>,
)
    requires
        before.wf(),
        before.users().contains_key(user),
        after.users() == before.users().insert(user, before.users()[user].widened(client, scope)),
    ensures
        forall|any_user: Seq<char>, any_client: Seq<char>|
            (#[trigger] before.granted(any_user, any_client)) is Some ==> after.granted(
                any_user,
                any_client,
            ) is Some && before.granted(any_user, any_client)->0.subset_of(
                after.granted(any_user, any_client)->0,
            ),
        after.granted(user, client) is Some,
        scope.subset_of(after.granted(user, client)->0),
{
    before.lemma_users();
    lemma_widened(before.users()[user], client, scope);
}

} // verus!
