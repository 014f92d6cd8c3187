use axum_oauth::oauth::database::resource::user::AuthUser;
use axum_oauth::oauth::database::Database;
use axum_oauth::oauth::models::{ClientId, InvalidLengthError, UserId};
use axum_oauth::oauth::primitives::registrar::{
    BoundClient, ClientUrl, PasswordPolicy, PreGrant, RegisteredUrl,
};
use axum_oauth::oauth::primitives::scope::Scope;
use axum_oauth::oauth::primitives::secret::Secret;
use axum_oauth::oauth::solicitor::{OwnerConsent, Solicitor, SolicitorError};
use axum_oauth::oauth::Consent;

fn scope(text: &str) -> Scope {
    Scope::from_str(text).unwrap()
}

fn attempt(client: &str, asked: &str) -> PreGrant {
    PreGrant {
        client_id: client.to_string(),
        redirect_uri: RegisteredUrl::parse("https://foo/authorized").unwrap(),
        scope: scope(asked),
    }
}

struct World {
    db: Database,
    user: AuthUser,
    client: String,
}

fn world() -> World {
    let mut db = Database::with_policy(PasswordPolicy::Plain);
    let id = db.register_user("bob", Secret::new("secret".to_string()), "Robert").unwrap();
    let (client, _) = db
        .register_confidential_client("foo client", "https://foo/authorized", "")
        .unwrap();
    World { db, user: AuthUser { user_id: id, username: "bob".to_string() }, client }
}

fn stored(world: &World) -> Option<Scope> {
    world.db.get_scope(&world.user.user_id, &ClientId::from_str(&world.client).unwrap())
}

fn prompts(outcome: &OwnerConsent) -> bool {
    matches!(outcome, OwnerConsent::InProgress(_))
}

#[test]
fn first_attempt_asks_the_owner() {
    let world = world();
    let solicitor = Solicitor::new(world.user.clone());
    let grant = attempt(&world.client, "read");
    match solicitor.check_consent(&world.db, &grant) {
        OwnerConsent::InProgress(prompt) => {
            assert_eq!(prompt.client_name, "foo client");
            assert_eq!(prompt.username, "bob");
            assert_eq!(prompt.scope, vec!["read".to_string()]);
            assert_eq!(prompt.pre_grant, grant);
        }
        other => panic!("{:?}", other),
    }
    assert_eq!(stored(&world), None);
}

#[test]
fn empty_attempt_still_asks_the_owner_the_first_time() {
    let world = world();
    let solicitor = Solicitor::new(world.user.clone());
    assert!(prompts(&solicitor.check_consent(&world.db, &attempt(&world.client, ""))));
}

#[test]
fn covered_attempt_is_approved_without_asking() {
    let mut world = world();
    let solicitor = Solicitor::new(world.user.clone());
    let identity = world.user.to_string();
    assert_eq!(
        solicitor.decide(&mut world.db, Consent::Allow, &attempt(&world.client, "read write")),
        OwnerConsent::Authorized(identity.clone())
    );
    for asked in ["read", "write", "read write", "write read", ""] {
        assert_eq!(
            solicitor.check_consent(&world.db, &attempt(&world.client, asked)),
            OwnerConsent::Authorized(identity.clone()),
            "{}",
            asked
        );
    }
    assert_eq!(stored(&world), Some(scope("read write")));
}

#[test]
fn uncovered_attempt_asks_the_owner() {
    let mut world = world();
    let solicitor = Solicitor::new(world.user.clone());
    solicitor.decide(&mut world.db, Consent::Allow, &attempt(&world.client, "read"));
    for asked in ["write", "read write", "admin read"] {
        match solicitor.check_consent(&world.db, &attempt(&world.client, asked)) {
            OwnerConsent::InProgress(prompt) => {
                assert_eq!(prompt.scope, scope(asked).tokens());
            }
            other => panic!("{:?}", other),
        }
    }
    assert_eq!(stored(&world), Some(scope("read")));
}

#[test]
fn allowing_widens_what_is_stored() {
    let mut world = world();
    let solicitor = Solicitor::new(world.user.clone());
    solicitor.decide(&mut world.db, Consent::Allow, &attempt(&world.client, "read"));
    assert_eq!(stored(&world), Some(scope("read")));
    solicitor.decide(&mut world.db, Consent::Allow, &attempt(&world.client, "write"));
    assert_eq!(stored(&world), Some(scope("read write")));
    solicitor.decide(&mut world.db, Consent::Allow, &attempt(&world.client, "read"));
    assert_eq!(stored(&world), Some(scope("read write")));
}

#[test]
fn denying_changes_nothing() {
    let mut world = world();
    let solicitor = Solicitor::new(world.user.clone());
    assert_eq!(
        solicitor.decide(&mut world.db, Consent::Deny, &attempt(&world.client, "read")),
        OwnerConsent::Denied
    );
    assert_eq!(stored(&world), None);
    solicitor.decide(&mut world.db, Consent::Allow, &attempt(&world.client, "read"));
    assert_eq!(
        solicitor.decide(&mut world.db, Consent::Deny, &attempt(&world.client, "read write")),
        OwnerConsent::Denied
    );
    assert_eq!(stored(&world), Some(scope("read")));
    assert!(prompts(&solicitor.check_consent(&world.db, &attempt(&world.client, "read write"))));
}

#[test]
fn grants_of_one_user_do_not_serve_another() {
    let mut world = world();
    let alice = world.db.register_user("alice", Secret::new("pw".to_string()), "Alice").unwrap();
    let bob = Solicitor::new(world.user.clone());
    bob.decide(&mut world.db, Consent::Allow, &attempt(&world.client, "read"));
    let alice = Solicitor::new(AuthUser { user_id: alice, username: "alice".to_string() });
    assert!(prompts(&alice.check_consent(&world.db, &attempt(&world.client, "read"))));
}

#[test]
fn lookups_that_fail_end_in_an_error() {
    let mut world = world();
    let solicitor = Solicitor::new(world.user.clone());
    let short = OwnerConsent::Error(SolicitorError::InvalidClientId(InvalidLengthError {
        expected: 21,
        actual: 7,
    }));
    assert_eq!(solicitor.check_consent(&world.db, &attempt("too-few", "read")), short);
    assert_eq!(solicitor.decide(&mut world.db, Consent::Allow, &attempt("too-few", "read")), short);
    let unknown = ClientId::new().to_string();
    assert_eq!(
        solicitor.check_consent(&world.db, &attempt(&unknown, "read")),
        OwnerConsent::Error(SolicitorError::UnknownClient)
    );
    assert_eq!(
        solicitor.decide(&mut world.db, Consent::Allow, &attempt(&unknown, "read")),
        OwnerConsent::Error(SolicitorError::UnknownClient)
    );
    let stranger = Solicitor::new(AuthUser { user_id: UserId::new(), username: "eve".to_string() });
    assert_eq!(
        stranger.check_consent(&world.db, &attempt(&world.client, "read")),
        OwnerConsent::Error(SolicitorError::UnknownUser)
    );
    assert_eq!(
        stranger.decide(&mut world.db, Consent::Allow, &attempt(&world.client, "read")),
        OwnerConsent::Error(SolicitorError::UnknownUser)
    );
    assert_eq!(
        stranger.decide(&mut world.db, Consent::Deny, &attempt(&unknown, "read")),
        OwnerConsent::Denied
    );
    assert_eq!(stored(&world), None);
}

#[test]
fn solicitor_errors_are_worded() {
    assert_eq!(SolicitorError::UnknownClient.to_string(), "the client does not exist");
    assert_eq!(SolicitorError::UnknownUser.to_string(), "the user does not exist");
    assert_eq!(
        SolicitorError::InvalidClientId(InvalidLengthError { expected: 21, actual: 0 }).to_string(),
        "the client identifier is not valid"
    );
}

#[test]
fn end_to_end_authorization() {
    let mut db = Database::new();
    let id = db.register_user("bob", Secret::new("secret".to_string()), "Robert").unwrap();
    let (client, client_secret) = db
        .register_confidential_client("foo client", "https://foo/authorized", "")
        .unwrap();
    let client_secret = client_secret.unwrap();
    assert_eq!(db.check(&client, Some(client_secret.as_bytes())), Ok(()));

    let bound = db
        .bound_redirect(ClientUrl {
            client_id: client.clone(),
            redirect_uri: Some("https://foo/authorized".to_string()),
        })
        .unwrap();
    assert_eq!(
        bound,
        BoundClient {
            client_id: client.clone(),
            redirect_uri: RegisteredUrl::parse("https://foo/authorized").unwrap(),
        }
    );
    let read = db.negotiate(bound, Some(scope("account:read"))).unwrap();
    assert_eq!(read.scope, scope("account:read"));

    let user = AuthUser { user_id: id.clone(), username: "bob".to_string() };
    let solicitor = Solicitor::new(user.clone());
    let client_id = ClientId::from_str(&client).unwrap();

    assert!(prompts(&solicitor.check_consent(&db, &read)));
    assert_eq!(
        solicitor.decide(&mut db, Consent::Allow, &read),
        OwnerConsent::Authorized(user.to_string())
    );
    assert_eq!(db.get_scope(&id, &client_id), Some(scope("account:read")));
    assert_eq!(
        solicitor.check_consent(&db, &read),
        OwnerConsent::Authorized(user.to_string())
    );

    let both = PreGrant {
        client_id: client.clone(),
        redirect_uri: read.redirect_uri.clone(),
        scope: scope("account:read account:write"),
    };
    assert!(prompts(&solicitor.check_consent(&db, &both)));
    assert_eq!(
        solicitor.decide(&mut db, Consent::Allow, &both),
        OwnerConsent::Authorized(user.to_string())
    );
    assert_eq!(db.get_scope(&id, &client_id), Some(scope("account:read account:write")));
    assert_eq!(
        solicitor.check_consent(&db, &both),
        OwnerConsent::Authorized(user.to_string())
    );
}
