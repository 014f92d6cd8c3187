use axum_oauth::oauth::database::resource::user::AuthUser;
use axum_oauth::oauth::database::{Database, StoreError, UserRecord, SECRET_LENGTH};
use axum_oauth::oauth::models::{ClientId, UserId};
use axum_oauth::oauth::primitives::registrar::{
    ClientUrl, PasswordPolicy, RegisteredUrl, RegistrarError,
};
use axum_oauth::oauth::primitives::scope::Scope;
use axum_oauth::oauth::primitives::secret::Secret;

fn secret(text: &str) -> Secret {
    Secret::new(text.to_string())
}

fn scope(text: &str) -> Scope {
    Scope::from_str(text).unwrap()
}

fn store() -> Database {
    Database::with_policy(PasswordPolicy::Plain)
}

fn auth(id: &UserId, name: &str) -> AuthUser {
    AuthUser { user_id: id.clone(), username: name.to_string() }
}

#[test]
fn registered_user_is_found_by_id_and_by_name() {
    let mut db = store();
    let id = db.register_user("bob", secret("secret"), "Robert").unwrap();
    let by_id = db.get_user_by_id(&auth(&id, "bob")).unwrap();
    assert_eq!(by_id.id(), Some(id.clone()));
    assert_eq!(by_id.username(), Some("bob".to_string()));
    assert_eq!(by_id.given_name(), Some("Robert".to_string()));
    assert!(by_id.get_authorized_clients().is_empty());
    let by_name = db.get_user_by_name("bob").unwrap();
    assert_eq!(by_name.id(), Some(id));
    assert!(db.contains_user_name("bob"));
    assert!(!db.contains_user_name("Bob"));
    assert!(!db.contains_user_name("bo"));
}

#[test]
fn unknown_user_does_not_exist() {
    let mut db = store();
    db.register_user("bob", secret("secret"), "Robert").unwrap();
    assert_eq!(
        db.get_user_by_id(&auth(&UserId::new(), "bob")).map(|_| ()),
        Err(StoreError::DoesNotExist)
    );
    assert_eq!(db.get_user_by_name("alice").map(|_| ()), Err(StoreError::DoesNotExist));
    assert_eq!(
        db.update_given_name_by_id(&auth(&UserId::new(), "bob"), "X"),
        Err(StoreError::DoesNotExist)
    );
}

#[test]
fn taken_name_is_a_duplicate() {
    let mut db = store();
    let id = db.register_user("bob", secret("secret"), "Robert").unwrap();
    assert_eq!(
        db.register_user("bob", secret("other"), "Bobby"),
        Err(StoreError::DuplicateRecord)
    );
    assert_eq!(db.get_user_by_name("bob").unwrap().given_name(), Some("Robert".to_string()));
    assert_eq!(db.authenticate("bob", "secret"), Ok(id.clone()));
    assert!(db.register_user("Bob", secret("other"), "Bobby").is_ok());
    assert_eq!(
        db.register_user_as(id, "carol", secret("pw"), "Carol"),
        Err(StoreError::DuplicateRecord)
    );
    assert!(!db.contains_user_name("carol"));
}

#[test]
fn empty_name_is_invalid_input() {
    let mut db = store();
    assert_eq!(db.register_user("", secret("secret"), "Nobody"), Err(StoreError::InvalidInput));
    assert!(db.register_user("x", secret(""), "").is_ok());
    assert_eq!(db.get_user_by_name("x").unwrap().given_name(), None);
}

#[test]
fn register_user_as_takes_the_given_identifier() {
    let mut db = store();
    let id = UserId::from_str("abcdefghijklmnopqrstu").unwrap();
    assert_eq!(db.register_user_as(id.clone(), "bob", secret("s"), "B"), Ok(id.clone()));
    assert_eq!(db.get_user_by_name("bob").unwrap().id(), Some(id));
}

#[test]
fn authenticate_hides_which_part_was_wrong() {
    let mut db = store();
    let id = db.register_user("bob", secret("secret"), "Robert").unwrap();
    assert_eq!(db.authenticate("bob", "secret"), Ok(id));
    let unknown = db.authenticate("alice", "secret");
    let wrong = db.authenticate("bob", "not_my_secret");
    assert_eq!(unknown, Err(StoreError::InvalidCredentials));
    assert_eq!(wrong, Err(StoreError::InvalidCredentials));
    assert_eq!(unknown, wrong);
    assert_eq!(db.authenticate("bob", ""), Err(StoreError::InvalidCredentials));
    assert_eq!(db.authenticate("", ""), Err(StoreError::InvalidCredentials));
}

#[test]
fn password_is_kept_encoded_under_argon2() {
    let mut db = Database::new();
    let id = db.register_user("bob", secret("secret"), "Robert").unwrap();
    let record = db.get_user_by_name("bob").unwrap();
    assert_ne!(record.password(), b"secret");
    assert!(!format!("{:?}", record).contains("secret"));
    assert_eq!(db.verify_password("bob", "secret"), Ok(true));
    assert_eq!(db.verify_password("bob", "Secret"), Err(StoreError::InvalidCredentials));
    assert_eq!(db.authenticate("bob", "secret"), Ok(id));
    assert_eq!(db.authenticate("bob", "Secret"), Err(StoreError::InvalidCredentials));
}

#[test]
fn given_name_can_be_changed() {
    let mut db = store();
    let id = db.register_user("bob", secret("secret"), "Robert").unwrap();
    let other = db.register_user("alice", secret("pw"), "Alice").unwrap();
    assert_eq!(db.update_given_name_by_id(&auth(&id, "bob"), "Bobby"), Ok(true));
    assert_eq!(db.get_user_by_name("bob").unwrap().given_name(), Some("Bobby".to_string()));
    assert_eq!(
        db.get_user_by_id(&auth(&other, "alice")).unwrap().given_name(),
        Some("Alice".to_string())
    );
    assert_eq!(db.authenticate("bob", "secret"), Ok(id));
}

#[test]
fn nothing_is_granted_at_first() {
    let mut db = store();
    let id = db.register_user("bob", secret("secret"), "Robert").unwrap();
    assert_eq!(db.get_scope(&id, &ClientId::new()), None);
    assert_eq!(db.get_scope(&UserId::new(), &ClientId::new()), None);
}

#[test]
fn grants_only_widen() {
    let mut db = store();
    let id = db.register_user("bob", secret("secret"), "Robert").unwrap();
    let client = ClientId::new();
    let other = ClientId::new();
    assert_eq!(db.update_client_scope(&id, client.clone(), scope("read")), Ok(()));
    assert_eq!(db.get_scope(&id, &client), Some(scope("read")));
    assert_eq!(db.update_client_scope(&id, client.clone(), scope("write")), Ok(()));
    assert_eq!(db.get_scope(&id, &client), Some(scope("read write")));
    assert_eq!(db.update_client_scope(&id, client.clone(), scope("read")), Ok(()));
    assert_eq!(db.get_scope(&id, &client), Some(scope("read write")));
    assert_eq!(db.update_client_scope(&id, other.clone(), Scope::new()), Ok(()));
    assert_eq!(db.get_scope(&id, &other), Some(Scope::new()));
    assert_eq!(db.get_scope(&id, &client), Some(scope("read write")));
    let record = db.get_user_by_name("bob").unwrap();
    let listed: Vec<ClientId> =
        record.get_authorized_clients().iter().map(|a| a.client_id.clone()).collect();
    assert_eq!(listed, vec![client, other]);
    assert_eq!(
        db.update_client_scope(&UserId::new(), ClientId::new(), scope("read")),
        Err(StoreError::DoesNotExist)
    );
}

#[test]
fn user_record_widens_what_a_client_has() {
    let id = UserId::new();
    let client = ClientId::new();
    let mut record = UserRecord::new(id.clone(), "bob", b"kept".to_vec(), "Robert");
    assert_eq!(record.password(), b"kept");
    assert_eq!(record.authorization_for(&client), None);
    record.add_authorized_client(client.clone(), scope("a"));
    record.add_authorized_client(client.clone(), scope("b"));
    assert_eq!(record.authorization_for(&client), Some(scope("a b")));
    assert_eq!(record.get_authorized_clients().len(), 1);
    record.update_given_name("Bobby");
    assert_eq!(record.given_name(), Some("Bobby".to_string()));
    let nameless = UserRecord::new(id, "", Vec::new(), "");
    assert_eq!(nameless.username(), None);
    assert_eq!(nameless.given_name(), None);
    assert_eq!(nameless.id(), None);
}

#[test]
fn public_client_gets_no_secret() {
    let mut db = store();
    let (id, client_secret) =
        db.register_public_client("foo client", "https://foo/authorized", "").unwrap();
    assert_eq!(id.chars().count(), 21);
    assert_eq!(client_secret, None);
    let client = ClientId::from_str(&id).unwrap();
    assert_eq!(db.get_client_name(&client).unwrap().inner, "foo client");
    assert_eq!(db.check(&id, None), Ok(()));
    assert_eq!(db.check(&id, Some(b"anything")), Ok(()));
    assert_eq!(db.client_count(), 1);
}

#[test]
fn confidential_client_gets_its_secret_once() {
    let mut db = Database::new();
    let (id, client_secret) = db
        .register_confidential_client("foo client", "https://foo/authorized", "account:read")
        .unwrap();
    let client_secret = client_secret.unwrap();
    assert_eq!(SECRET_LENGTH, 32);
    assert_eq!(client_secret.len(), 32);
    assert_eq!(db.check(&id, Some(client_secret.as_bytes())), Ok(()));
    assert_eq!(db.check(&id, Some(b"wrong")), Err(RegistrarError::AuthFailed));
    assert_eq!(db.check(&id, None), Err(RegistrarError::AuthFailed));
    assert_eq!(db.check("unknown", None), Err(RegistrarError::AuthFailed));
    assert!(!format!("{:?}", db).contains(&client_secret));
}

#[test]
fn malformed_registration_is_invalid_input() {
    let mut db = store();
    assert_eq!(
        db.register_public_client("", "https://foo/authorized", ""),
        Err(StoreError::InvalidInput)
    );
    assert_eq!(
        db.register_public_client("foo", "not a url", ""),
        Err(StoreError::InvalidInput)
    );
    assert_eq!(
        db.register_confidential_client("foo", "/relative", ""),
        Err(StoreError::InvalidInput)
    );
    assert_eq!(
        db.register_confidential_client("foo", "https://foo/cb", "bad\"scope"),
        Err(StoreError::InvalidInput)
    );
    assert_eq!(db.client_count(), 0);
}

#[test]
fn registration_never_replaces_a_client() {
    let mut db = store();
    let id = ClientId::from_str("ABCDEFGHIJKLMNOPQRSTU").unwrap();
    let first = db.register_client_as(
        id.clone(),
        None,
        "first",
        RegisteredUrl::parse("https://first/cb"),
        "",
    );
    assert_eq!(first, Ok(("ABCDEFGHIJKLMNOPQRSTU".to_string(), None)));
    let second = db.register_client_as(
        id.clone(),
        Some("s".to_string()),
        "second",
        RegisteredUrl::parse("https://second/cb"),
        "",
    );
    assert_eq!(second, Err(StoreError::DuplicateRecord));
    assert_eq!(db.get_client_name(&id).unwrap().inner, "first");
    assert_eq!(db.client_count(), 1);
    assert_eq!(
        db.register_client_as(ClientId::new(), None, "x", None, ""),
        Err(StoreError::InvalidInput)
    );
}

#[test]
fn unknown_client_has_no_name() {
    let db = store();
    assert_eq!(
        db.get_client_name(&ClientId::new()).map(|name| name.inner),
        Err(StoreError::DoesNotExist)
    );
}

#[test]
fn every_registration_adds_one_client() {
    let mut db = store();
    let mut ids = Vec::new();
    for n in 0..25 {
        let name = format!("client {}", n);
        let (id, _) = db.register_public_client(&name, "https://foo/authorized", "").unwrap();
        assert!(!ids.contains(&id));
        ids.push(id);
        assert_eq!(db.client_count(), n + 1);
    }
    for (n, id) in ids.iter().enumerate() {
        let client = ClientId::from_str(id).unwrap();
        assert_eq!(db.get_client_name(&client).unwrap().inner, format!("client {}", n));
    }
}

#[test]
fn store_binds_and_negotiates_like_the_registry() {
    let mut db = store();
    let (id, _) = db
        .register_public_client("foo", "https://foo/authorized", "account:read")
        .unwrap();
    let bound = db
        .bound_redirect(ClientUrl { client_id: id.clone(), redirect_uri: None })
        .unwrap();
    assert_eq!(bound.redirect_uri.as_str(), "https://foo/authorized");
    assert_eq!(
        db.bound_redirect(ClientUrl {
            client_id: id.clone(),
            redirect_uri: Some("https://attacker/cb".to_string()),
        }),
        Err(RegistrarError::RedirectMismatch)
    );
    assert_eq!(
        db.bound_redirect(ClientUrl {
            client_id: id.clone(),
            redirect_uri: Some("https://foo/authorized/extra".to_string()),
        }),
        Err(RegistrarError::RedirectMismatch)
    );
    let grant = db.negotiate(bound, Some(scope("account:write nonsense"))).unwrap();
    assert_eq!(grant.client_id, id);
    assert_eq!(grant.scope, scope("account:write"));
    let bound = db
        .bound_redirect(ClientUrl { client_id: id, redirect_uri: None })
        .unwrap();
    assert_eq!(db.negotiate(bound, None).unwrap().scope, scope("account:read"));
}

#[test]
fn store_errors_are_worded() {
    assert_eq!(StoreError::DoesNotExist.to_string(), "the record does not exist");
    assert_eq!(StoreError::DuplicateRecord.to_string(), "attempted to insert duplicate record");
    assert_eq!(StoreError::InternalError.to_string(), "an unexpected internal error occurred");
    assert_eq!(StoreError::InvalidInput.to_string(), "the input is not valid");
    assert_eq!(StoreError::InvalidCredentials.to_string(), "the credentials are not valid");
}

#[test]
fn kept_data_that_cannot_be_read_is_an_internal_error() {
    let mut db = store();
    db.register_user("bob", secret("secret"), "Robert").unwrap();
    let (id, client_secret) = db
        .register_confidential_client("foo", "https://foo/cb", "")
        .unwrap();
    db.set_password_policy(PasswordPolicy::Argon2);
    assert_eq!(db.verify_password("bob", "secret"), Err(StoreError::InternalError));
    assert_eq!(db.authenticate("bob", "secret"), Err(StoreError::InternalError));
    assert_eq!(db.authenticate("alice", "secret"), Err(StoreError::InvalidCredentials));
    assert_eq!(
        db.check(&id, Some(client_secret.unwrap().as_bytes())),
        Err(RegistrarError::InternalError)
    );
    assert_eq!(db.check(&id, None), Err(RegistrarError::AuthFailed));
    db.set_password_policy(PasswordPolicy::Plain);
    assert_eq!(db.verify_password("bob", "secret"), Ok(true));
    assert_eq!(db.verify_password("bob", "wrong"), Err(StoreError::InvalidCredentials));
}

#[test]
fn verify_password_hides_which_part_was_wrong() {
    let mut db = store();
    let id = db.register_user("bob", secret("secret"), "Robert").unwrap();
    assert_eq!(db.verify_password("bob", "secret"), Ok(true));
    assert_eq!(db.authenticate("bob", "secret"), Ok(id));
    let wrong_password = db.verify_password("bob", "Secret");
    let wrong_name = db.verify_password("Bob", "secret");
    let unknown = db.verify_password("alice", "anything");
    assert_eq!(wrong_password, Err(StoreError::InvalidCredentials));
    assert_eq!(wrong_name, Err(StoreError::InvalidCredentials));
    assert_eq!(unknown, wrong_password);
}

#[test]
fn registration_succeeds_on_a_fresh_store() {
    let mut db = Database::new();
    let id = db.register_user("bob", secret("secret"), "Robert").unwrap();
    let record = db.get_user_by_name("bob").unwrap();
    assert_eq!(record.id(), Some(id));
    assert_eq!(record.username(), Some("bob".to_string()));
    assert_eq!(record.given_name(), Some("Robert".to_string()));
    assert!(record.get_authorized_clients().is_empty());

    let mut db = Database::new();
    let (id, handed) = db
        .register_confidential_client("foo client", "https://foo/authorized", "")
        .unwrap();
    assert!(!id.is_empty());
    assert_eq!(handed.unwrap().len(), 32);
    assert_eq!(
        db.get_client_name(&ClientId::from_str(&id).unwrap()).unwrap().inner,
        "foo client"
    );

    let mut db = Database::new();
    let (id, handed) =
        db.register_public_client("foo client", "https://foo/authorized", "").unwrap();
    assert!(!id.is_empty());
    assert_eq!(handed, None);
    assert_eq!(db.check(&id, None), Ok(()));
}
