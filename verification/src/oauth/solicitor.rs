//! Asking the owner: whether an authorization attempt is covered by what the user has
//! granted already, or has to be confirmed, and what follows from the answer.

use vstd::prelude::*;

use crate::oauth::database::resource::client::AuthClient;
use crate::oauth::database::resource::user::{written_user, AuthUser};
use crate::oauth::database::Database;
use crate::oauth::models::{InvalidLengthError, ID_LENGTH};
use crate::oauth::primitives::scope::{is_token_list, texts};
use crate::oauth::primitives::registrar::{byte_len, PreGrant};
use crate::oauth::Consent;

verus! {

/// Why no consent could be sought.
#[derive(Clone, Copy, Debug, PartialEq, Eq)]
pub enum SolicitorError {
    /// The client identifier of the attempt is no identifier.
    InvalidClientId(InvalidLengthError),
    /// No client is registered under the identifier.
    UnknownClient,
    /// The user who is asked is not known to the store.
    UnknownUser,
}

impl SolicitorError {
    pub fn to_string(&self) -> (text: String)
        ensures
            text@ == (match *self {
                SolicitorError::InvalidClientId(_) => "the client identifier is not valid"@,
                SolicitorError::UnknownClient => "the client does not exist"@,
                SolicitorError::UnknownUser => "the user does not exist"@,
            }),
    {
        match self {
            SolicitorError::InvalidClientId(_) => "the client identifier is not valid".to_owned(),
            SolicitorError::UnknownClient => "the client does not exist".to_owned(),
            SolicitorError::UnknownUser => "the user does not exist".to_owned(),
        }
    }
}

/// What is shown to the owner who is asked to confirm, and what is needed to take
/// the attempt up again with the answer.
#[derive(Debug, PartialEq, Eq)]
pub struct ConsentPrompt {
    /// The name the client shows to users.
    pub client_name: String,
    /// The name of the user who is asked.
    pub username: String,
    /// The tokens asked for, in ascending dictionary order.
    pub scope: Vec<String>,
    /// The attempt, to be handed back with the answer.
    pub pre_grant: PreGrant,
}

/// The outcome of an authorization attempt.
#[derive(Debug, PartialEq, Eq)]
pub enum OwnerConsent {
    /// The attempt is authorized in the name of the user written here.
    Authorized(String),
    /// The owner has to confirm.
    InProgress(ConsentPrompt),
    /// The owner refused.
    Denied,
    /// The attempt cannot be decided.
    Error(SolicitorError),
}

/// Where an authorization attempt stands before the owner was asked.
pub enum Standing {
    /// What the user has granted to the client covers what is asked for.
    AutoApproved,
    /// The owner has to confirm.
    PendingPrompt,
    /// The attempt cannot be decided.
    Error(SolicitorError),
}

/// Where the attempt of the client written `client` for the scope `requested` stands
/// with the user `user`.
///
/// It is approved at once where the user has granted the client a scope that holds
/// every token asked for. In every other case, that of a client the user never
/// granted anything included, the owner is asked, provided that the client and the
/// user are known.
pub open spec fn standing(
    db: Database,
    user: Seq<char>,
    client: Seq<char>,
    requested: Set<Seq<char>>,
) -> Standing {
    if client.len() != ID_LENGTH {
        Standing::Error(
            SolicitorError::InvalidClientId(
                InvalidLengthError { expected: ID_LENGTH, actual: byte_len(client) as usize },
            ),
        )
    } else if db.granted(user, client) is Some && requested.subset_of(db.granted(user, client)->0) {
        Standing::AutoApproved
    } else if !db.clients().contains_key(client) {
        Standing::Error(SolicitorError::UnknownClient)
    } else if !db.users().contains_key(user) {
        Standing::Error(SolicitorError::UnknownUser)
    } else {
        Standing::PendingPrompt
    }
}

/// What the user has granted to the client once the owner has answered `consent` to
/// an attempt for `requested`: allowing widens what was granted by what was asked
/// for, denying leaves it as it was.
pub open spec fn decided_grant(
    had: Option<Set<Seq<char>>>,
    consent: Consent,
    requested: Set<Seq<char>>,
) -> Option<Set<Seq<char>>> {
    match consent {
        Consent::Deny => had,
        Consent::Allow => match had {
            Some(scope) => Some(scope.union(requested)),
            None => Some(requested),
        },
    }
}

/// Decides about the authorization attempts of one signed-in user.
#[derive(Debug)]
pub struct Solicitor {
    user: AuthUser,
}

impl Solicitor {
    /// The identifier of the user.
    pub closed spec fn user_id(&self) -> Seq<char> {
        self.user.user_id@
    }

    /// The name of the user.
    pub closed spec fn username(&self) -> Seq<char> {
        self.user.username@
    }

    pub fn new(user: AuthUser) -> (solicitor: Solicitor)
        ensures
            solicitor.user_id() == user.user_id@,
            solicitor.username() == user.username@,
    {
        Solicitor { user }
    }

    /// Decides whether the attempt `pre_grant` is authorized already or the owner has
    /// to be asked. Nothing in the store changes.
    pub fn check_consent(&self, db: &Database, pre_grant: &PreGrant) -> (outcome: OwnerConsent)
        requires
            db.wf(),
        ensures
            match standing(*db, self.user_id(), pre_grant.client_id@, pre_grant.scope@) {
                Standing::AutoApproved => outcome matches OwnerConsent::Authorized(identity)
                    && identity@ == written_user(self.user_id(), self.username()),
                Standing::PendingPrompt => outcome matches OwnerConsent::InProgress(prompt) && {
                    &&& prompt.client_name@ == db.clients()[pre_grant.client_id@].name
                    &&& prompt.username@ == db.users()[self.user_id()].username
                    &&& is_token_list(texts(prompt.scope@))
                    &&& texts(prompt.scope@).to_set() == pre_grant.scope@
                    &&& prompt.pre_grant.client_id@ == pre_grant.client_id@
                    &&& prompt.pre_grant.redirect_uri@ == pre_grant.redirect_uri@
                    &&& prompt.pre_grant.scope@ == pre_grant.scope@
                },
                Standing::Error(error) => outcome == OwnerConsent::Error(error),
            },
    {
        let client = match AuthClient::from_str(pre_grant.client_id.as_str()) {
            Ok(client) => client,
            Err(error) => {
                return OwnerConsent::Error(SolicitorError::InvalidClientId(error));
            },
        };
        match db.get_scope(&self.user.user_id, &client.id) {
            Some(granted) => {
                if granted.covers(&pre_grant.scope) {
                    return OwnerConsent::Authorized(self.user.to_string());
                }
            },
            None => {},
        }
        let client_name = match db.get_client_name(&client.id) {
            Ok(name) => name,
            Err(_) => {
                return OwnerConsent::Error(SolicitorError::UnknownClient);
            },
        };
        let user = match db.get_user_by_id(&self.user) {
            Ok(user) => user,
            Err(_) => {
                return OwnerConsent::Error(SolicitorError::UnknownUser);
            },
        };
        let username = match user.username() {
            Some(username) => username,
            None => {
                return OwnerConsent::Error(SolicitorError::UnknownUser);
            },
        };
        OwnerConsent::InProgress(
            ConsentPrompt {
                client_name: client_name.inner,
                username,
                scope: pre_grant.scope.tokens(),
                pre_grant: pre_grant.clone(),
            },
        )
    }

    /// Takes an attempt up again with the answer of the owner. Allowing grants the
    /// scope asked for on top of what the client had and authorizes the attempt;
    /// denying changes nothing.
    pub fn decide(&self, db: &mut Database, consent: Consent, pre_grant: &PreGrant) -> (outcome:
        OwnerConsent)
        requires
            old(db).wf(),
        ensures
            final(db).wf(),
            final(db).clients() == old(db).clients(),
            final(db).names() == old(db).names(),
            final(db).policy() == old(db).policy(),
            match decision(*old(db), self.user_id(), consent, pre_grant.client_id@) {
                Decision::Authorized => {
                    &&& outcome matches OwnerConsent::Authorized(identity) && identity@
                        == written_user(self.user_id(), self.username())
                    &&& final(db).users() == old(db).users().insert(
                        self.user_id(),
                        old(db).users()[self.user_id()].widened(
                            pre_grant.client_id@,
                            pre_grant.scope@,
                        ),
                    )
                },
                Decision::Denied => outcome == OwnerConsent::Denied && final(db).users() == old(
                    db,
                ).users(),
                Decision::Error(error) => outcome == OwnerConsent::Error(error) && final(db).users()
                    == old(db).users(),
            },
            !(outcome is Error) ==> final(db).granted(self.user_id(), pre_grant.client_id@)
                == decided_grant(
                old(db).granted(self.user_id(), pre_grant.client_id@),
                consent,
                pre_grant.scope@,
            ),
    {
        match consent {
            Consent::Deny => {
                return OwnerConsent::Denied;
            },
            Consent::Allow => {},
        }
        let client = match AuthClient::from_str(pre_grant.client_id.as_str()) {
            Ok(client) => client,
            Err(error) => {
                return OwnerConsent::Error(SolicitorError::InvalidClientId(error));
            },
        };
        if db.get_client_name(&client.id).is_err() {
            return OwnerConsent::Error(SolicitorError::UnknownClient);
        }
        match db.update_client_scope(&self.user.user_id, client.id, pre_grant.scope.clone()) {
            Ok(()) => OwnerConsent::Authorized(self.user.to_string()),
            Err(_) => OwnerConsent::Error(SolicitorError::UnknownUser),
        }
    }
}

/// How an attempt ends once the owner has answered.
pub enum Decision {
    /// The attempt is authorized and what was asked for is granted.
    Authorized,
    /// The owner refused.
    Denied,
    /// The attempt cannot be decided.
    Error(SolicitorError),
}

/// How the attempt of the client written `client` ends with the answer `consent`:
/// denied where the owner denies; where the owner allows, authorized, provided that
/// the client and the user are known.
pub open spec fn decision(db: Database, user: Seq<char>, consent: Consent, client: Seq<char>) -> Decision {
    if consent == Consent::Deny {
        Decision::Denied
    } else if client.len() != ID_LENGTH {
        Decision::Error(
            SolicitorError::InvalidClientId(
                InvalidLengthError { expected: ID_LENGTH, actual: byte_len(client) as usize },
            ),
        )
    } else if !db.clients().contains_key(client) {
        Decision::Error(SolicitorError::UnknownClient)
    } else if !db.users().contains_key(user) {
        Decision::Error(SolicitorError::UnknownUser)
    } else {
        Decision::Authorized
    }
}

/// Once a user has granted a client a scope, an attempt of that client for any part
/// of the scope is approved without asking.
pub proof fn law_covered_attempt_is_approved(
    db: Database,
    user: Seq<char>,
    client: Seq<char>,
    granted: Set<Seq<char>>,
    requested: Set<Seq<char>>,
)
    requires
        client.len() == ID_LENGTH,
        db.granted(user, client) == Some(granted),
        requested.subset_of(granted),
    ensures
        standing(db, user, client, requested) is AutoApproved,
{
}

/// An attempt of a registered client for a scope that what the user has granted does
/// not cover is never approved without asking: the owner is asked.
pub proof fn law_uncovered_attempt_prompts(
    db: Database,
    user: Seq<char>,
    client: Seq<char>,
    granted: Set<Seq<char>>,
    requested: Set<Seq<char>>,
)
    requires
        client.len() == ID_LENGTH,
        db.clients().contains_key(client),
        db.granted(user, client) == Some(granted),
        !requested.subset_of(granted),
    ensures
        standing(db, user, client, requested) is PendingPrompt,
{
}

/// An attempt of a registered client that a known user never granted anything is
/// not approved without asking either.
pub proof fn law_first_attempt_prompts(
    db: Database,
    user: Seq<char>,
    client: Seq<char>,
    requested: Set<Seq<char>>,
)
    requires
        client.len() == ID_LENGTH,
        db.clients().contains_key(client),
        db.users().contains_key(user),
        db.granted(user, client) is None,
    ensures
        standing(db, user, client, requested) is PendingPrompt,
{
}

/// Allowing an attempt leaves the client with what it had and what was asked for;
/// denying leaves it with what it had. Neither takes a token away, and after
/// allowing, what was asked for is covered.
pub proof fn law_widening(granted: Set<Seq<char>>, consent: Consent, requested: Set<Seq<char>>)
    ensures
        decided_grant(Some(granted), Consent::Allow, requested) == Some(granted.union(requested)),
        decided_grant(Some(granted), Consent::Deny, requested) == Some(granted),
        decided_grant(None, Consent::Allow, requested) == Some(requested),
        decided_grant(None, Consent::Deny, requested) == None::<Set<Seq<char>>>,
        granted.subset_of(decided_grant(Some(granted), consent, requested)->0),
        requested.subset_of(decided_grant(Some(granted), Consent::Allow, requested)->0),
{
}

/// After the owner has allowed an attempt, the same attempt is approved without
/// asking.
pub proof fn law_allowed_attempt_is_approved_next_time(
    before: Database,
    after: Database,
    user: Seq<char>,
    client: Seq<char>,
    requested: Set<Seq<char>>,
)
    requires
        client.len() == ID_LENGTH,
        after.granted(user, client) == decided_grant(
            before.granted(user, client),
            Consent::Allow,
            requested,
        ),
    ensures
        standing(after, user, client, requested) is AutoApproved,
{
}

/// An attempt of a registered client with a known user is always decided: it is
/// approved or the owner is asked, and no error is answered.
pub proof fn law_registered_attempt_is_decided(
    db: Database,
    user: Seq<char>,
    client: Seq<char>,
    requested: Set<Seq<char>>,
)
    requires
        db.wf(),
        db.clients().contains_key(client),
        db.users().contains_key(user),
    ensures
        standing(db, user, client, requested) is AutoApproved || standing(
            db,
            user,
            client,
            requested,
        ) is PendingPrompt,
        decision(db, user, Consent::Allow, client) is Authorized,
{
    db.lemma_clients();
}

} // verus!
