use axum_oauth::oauth::database::resource::client::AuthClient;
use axum_oauth::oauth::database::resource::user::AuthUser;
use axum_oauth::oauth::models::client::ClientQuery;
use axum_oauth::oauth::models::{ClientId, InvalidLengthError, UserId, ID_LENGTH};
use axum_oauth::oauth::primitives::scope::Scope as TokenSet;
use axum_oauth::oauth::primitives::secret::Secret;
use axum_oauth::oauth::rhodos_scopes;
use axum_oauth::oauth::scopes::{
    recognized, recognizes, Account, Read, Resource, Scope, Scopes, Write, SCOPES,
};

const SAFE: &str = "_-0123456789abcdefghijklmnopqrstuvwxyzABCDEFGHIJKLMNOPQRSTUVWXYZ";

#[test]
fn fresh_identifiers_have_the_right_form() {
    let user = UserId::new();
    let client = ClientId::new();
    assert_eq!(ID_LENGTH, 21);
    assert_eq!(user.as_str().chars().count(), 21);
    assert_eq!(client.as_str().chars().count(), 21);
    assert!(user.as_str().chars().all(|c| SAFE.contains(c)));
    assert!(client.as_str().chars().all(|c| SAFE.contains(c)));
    assert_ne!(UserId::new(), UserId::new());
}

#[test]
fn identifier_is_read_from_text_of_the_right_length() {
    let id = UserId::from_str("abcdefghijklmnopqrstu").unwrap();
    assert_eq!(id.as_str(), "abcdefghijklmnopqrstu");
    assert_eq!(id.to_string(), "abcdefghijklmnopqrstu");
    assert!(id.same(&id.clone()));
    assert_eq!(
        UserId::from_str("short"),
        Err(InvalidLengthError { expected: 21, actual: 5 })
    );
    assert_eq!(
        ClientId::from_str("abcdefghijklmnopqrstuv"),
        Err(InvalidLengthError { expected: 21, actual: 22 })
    );
    assert_eq!(
        ClientId::from_str(""),
        Err(InvalidLengthError { expected: 21, actual: 0 })
    );
    assert!(ClientId::from_str("\u{e9}bcdefghijklmnopqrstu").is_ok());
    assert_eq!(
        UserId::from_str("\u{e9}"),
        Err(InvalidLengthError { expected: 21, actual: 2 })
    );
}

#[test]
fn auth_client_is_read_from_its_identifier() {
    let client = AuthClient::from_str("ABCDEFGHIJKLMNOPQRSTU").unwrap();
    assert_eq!(client.id.as_str(), "ABCDEFGHIJKLMNOPQRSTU");
    assert_eq!(
        AuthClient::from_str("nope"),
        Err(InvalidLengthError { expected: 21, actual: 4 })
    );
}

#[test]
fn auth_user_is_written_and_read_back() {
    let user = AuthUser {
        user_id: UserId::from_str("abcdefghijklmnopqrstu").unwrap(),
        username: "bob".to_string(),
    };
    assert_eq!(user.to_string(), "abcdefghijklmnopqrstu:bob");
    assert_eq!(AuthUser::from_str(&user.to_string()), Ok(user.clone()));
    let odd = AuthUser {
        user_id: UserId::new(),
        username: "a:b c\u{e9}".to_string(),
    };
    assert_eq!(AuthUser::from_str(&odd.to_string()), Ok(odd));
}

#[test]
fn auth_user_needs_identifier_and_separator() {
    assert_eq!(
        AuthUser::from_str("abc"),
        Err(InvalidLengthError { expected: 21, actual: 3 })
    );
    assert_eq!(
        AuthUser::from_str("abcdefghijklmnopqrstu"),
        Err(InvalidLengthError { expected: 22, actual: 21 })
    );
    assert_eq!(
        AuthUser::from_str("\u{e9}"),
        Err(InvalidLengthError { expected: 21, actual: 2 })
    );
    assert_eq!(
        AuthUser::from_str("a\u{20ac}c"),
        Err(InvalidLengthError { expected: 21, actual: 5 })
    );
    assert_eq!(AuthUser::from_str(""), Err(InvalidLengthError { expected: 21, actual: 0 }));
    let bare = AuthUser::from_str("abcdefghijklmnopqrstu:").unwrap();
    assert_eq!(bare.username, "");
    let other = AuthUser::from_str("abcdefghijklmnopqrstu#x").unwrap();
    assert_eq!(other.username, "x");
}

#[test]
fn client_query_is_compared_by_both_parts() {
    let user = UserId::from_str("abcdefghijklmnopqrstu").unwrap();
    let client = ClientId::from_str("ABCDEFGHIJKLMNOPQRSTU").unwrap();
    let query = ClientQuery { user_id: user.clone(), id: client.clone() };
    assert_eq!(query.to_string(), "abcdefghijklmnopqrstuABCDEFGHIJKLMNOPQRSTU");
    assert!(query.same(&ClientQuery { user_id: user.clone(), id: client.clone() }));
    assert!(!query.same(&ClientQuery { user_id: UserId::new(), id: client }));
    assert!(!query.same(&ClientQuery { user_id: user, id: ClientId::new() }));
}

#[test]
fn secret_does_not_show_when_printed() {
    let secret = Secret::new("hunter2".to_string());
    assert_eq!(secret.expose_secret(), "hunter2");
    assert!(!format!("{:?}", secret).contains("hunter2"));
}

#[test]
fn vocabulary_has_two_tokens() {
    assert_eq!(SCOPES, ["account:read", "account:write"]);
    assert_eq!(Account::read(), "account:read");
    assert_eq!(Account::write(), "account:write");
    assert_eq!(<Read<Account> as Scope>::scope(), "account:read");
    assert_eq!(<Write<Account> as Scope>::scope(), "account:write");
    assert_eq!(<() as Scope>::scope(), "");
}

#[test]
fn tokens_are_recognized_by_their_exact_text() {
    assert_eq!(Scopes::from_str("account:read"), Ok(Scopes::AccountRead));
    assert_eq!(Scopes::from_str("account:write"), Ok(Scopes::AccountWrite));
    assert_eq!(Scopes::from_str("account:follow"), Err(()));
    assert_eq!(Scopes::from_str("account:Read"), Err(()));
    assert_eq!(Scopes::from_str("account::read"), Err(()));
    assert_eq!(Scopes::AccountWrite.as_str(), "account:write");
    assert!(recognizes("account:write"));
    assert!(recognizes("account:read"));
    assert!(!recognizes("account:follow"));
    assert!(!recognizes("account"));
    assert!(!recognizes(""));
}

#[test]
fn wider_vocabulary_has_three_tokens() {
    assert_eq!(rhodos_scopes::SCOPES, ["account:read", "account:write", "account:follow"]);
    assert_eq!(<rhodos_scopes::Account as rhodos_scopes::Resource>::read(), "account:read");
    assert_eq!(<rhodos_scopes::Account as rhodos_scopes::Resource>::write(), "account:write");
    assert_eq!(<rhodos_scopes::Account as rhodos_scopes::Resource>::follow(), "account:follow");
    assert_eq!(
        <rhodos_scopes::Follow<rhodos_scopes::Account> as rhodos_scopes::Scope>::scope(),
        "account:follow"
    );
    assert_eq!(
        <rhodos_scopes::Read<rhodos_scopes::Account> as rhodos_scopes::Scope>::scope(),
        "account:read"
    );
    assert_eq!(
        <rhodos_scopes::Write<rhodos_scopes::Account> as rhodos_scopes::Scope>::scope(),
        "account:write"
    );
    assert_eq!(
        rhodos_scopes::Scopes::from_str("account:follow"),
        Ok(rhodos_scopes::Scopes::AccountFollow)
    );
    assert_eq!(rhodos_scopes::Scopes::from_str("account:other"), Err(()));
    assert_eq!(rhodos_scopes::Scopes::AccountRead.as_str(), "account:read");
    assert!(rhodos_scopes::recognizes("account:follow"));
    assert!(!rhodos_scopes::recognizes("follow"));
}

#[test]
fn recognized_keeps_the_known_tokens_only() {
    let asked = TokenSet::from_str("account:write unknown account:read other").unwrap();
    assert_eq!(recognized(&asked).to_string(), "account:read account:write");
    assert!(recognized(&TokenSet::from_str("a b").unwrap()).is_empty());
    let wider = TokenSet::from_str("account:follow account:read").unwrap();
    assert_eq!(recognized(&wider).to_string(), "account:read");
    assert!(recognized(&TokenSet::from_str("account:follow").unwrap()).is_empty());
}
