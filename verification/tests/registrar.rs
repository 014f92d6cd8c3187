use axum_oauth::oauth::database::clientmap::ClientMap;
use axum_oauth::oauth::primitives::registrar::{
    constant_time_eq, BoundClient, Client, ClientType, ClientUrl, PasswordPolicy, RegisteredUrl,
    RegistrarError,
};
use axum_oauth::oauth::primitives::scope::Scope;

fn url(text: &str) -> RegisteredUrl {
    RegisteredUrl::parse(text).unwrap()
}

fn scope(text: &str) -> Scope {
    Scope::from_str(text).unwrap()
}

fn registry() -> ClientMap {
    let mut map = ClientMap::with_policy(PasswordPolicy::Plain);
    map.register_client(
        "public-client",
        "The Public",
        Client::public("public-client", url("https://foo/authorized"), scope("account:read"))
            .with_additional_redirect_uris(vec![url("https://foo/other"), url("http://bar:8080/cb")]),
    );
    map.register_client(
        "secret-client",
        "The Secret",
        Client::confidential(
            "secret-client",
            url("https://secret/cb"),
            scope("account:write"),
            b"correct horse",
        ),
    );
    map
}

fn bind(map: &ClientMap, id: &str, uri: Option<&str>) -> Result<BoundClient, RegistrarError> {
    map.bound_redirect(ClientUrl {
        client_id: id.to_string(),
        redirect_uri: uri.map(|text| text.to_string()),
    })
}

#[test]
fn constant_time_eq_compares_bytes() {
    assert!(constant_time_eq(b"", b""));
    assert!(constant_time_eq(b"abc", b"abc"));
    assert!(!constant_time_eq(b"abc", b"abd"));
    assert!(!constant_time_eq(b"xbc", b"abc"));
    assert!(!constant_time_eq(b"abc", b"abcd"));
    assert!(!constant_time_eq(b"\x00\x80", b"\x80\x00"));
}

#[test]
fn plain_policy_keeps_the_secret() {
    let policy = PasswordPolicy::Plain;
    let kept = policy.store("id", b"secret");
    assert_eq!(kept, b"secret".to_vec());
    assert_eq!(policy.check("id", b"secret", &kept), Ok(()));
    assert_eq!(policy.check("id", b"Secret", &kept), Err(RegistrarError::AuthFailed));
    assert_eq!(policy.verify("id", b"secret", &kept), Ok(true));
    assert_eq!(policy.verify("id", b"", &kept), Ok(false));
}

#[test]
fn argon2_policy_accepts_what_it_stored() {
    let policy = PasswordPolicy::Argon2;
    let kept = policy.store("client", b"secret");
    assert_ne!(kept, b"secret".to_vec());
    assert_eq!(policy.check("client", b"secret", &kept), Ok(()));
    assert_eq!(policy.check("client", b"other", &kept), Err(RegistrarError::AuthFailed));
    assert_eq!(policy.check("another", b"secret", &kept), Err(RegistrarError::AuthFailed));
    assert_eq!(policy.verify("client", b"secret", &kept), Ok(true));
    assert_eq!(policy.verify("client", b"other", &kept), Ok(false));
}

#[test]
fn argon2_policy_reports_data_it_cannot_read() {
    let policy = PasswordPolicy::Argon2;
    assert_eq!(
        policy.check("client", b"secret", b"not a hash"),
        Err(RegistrarError::InternalError)
    );
    assert_eq!(
        policy.check("client", b"secret", &[0xff, 0xfe]),
        Err(RegistrarError::InternalError)
    );
    assert_eq!(
        policy.verify("client", b"secret", b""),
        Err(RegistrarError::InternalError)
    );
}

#[test]
fn url_is_kept_in_its_normal_form() {
    assert_eq!(url("https://foo/authorized").as_str(), "https://foo/authorized");
    assert_eq!(url("HTTPS://Foo:443/a/../authorized").as_str(), "https://foo/authorized");
    assert_eq!(url("http://localhost:3001").to_string(), "http://localhost:3001/");
    assert!(url("https://foo/").is("https://foo/"));
    assert!(!url("https://foo/").is("https://foo"));
}

#[test]
fn text_that_is_no_absolute_url_is_refused() {
    assert_eq!(RegisteredUrl::parse("not a url"), None);
    assert_eq!(RegisteredUrl::parse("/relative/path"), None);
    assert_eq!(RegisteredUrl::parse(""), None);
    assert_eq!(RegisteredUrl::from_normalized(None), None);
    assert_eq!(
        RegisteredUrl::from_normalized(Some("https://foo/".to_string())),
        Some(url("https://foo/"))
    );
}

#[test]
fn request_without_url_gets_the_registered_one() {
    let bound = bind(&registry(), "public-client", None).unwrap();
    assert_eq!(bound.client_id, "public-client");
    assert_eq!(bound.redirect_uri.as_str(), "https://foo/authorized");
}

#[test]
fn request_is_bound_to_the_registered_url_it_names() {
    let map = registry();
    assert_eq!(
        bind(&map, "public-client", Some("https://foo/authorized")).unwrap().redirect_uri,
        url("https://foo/authorized")
    );
    assert_eq!(
        bind(&map, "public-client", Some("https://foo/other")).unwrap().redirect_uri,
        url("https://foo/other")
    );
    assert_eq!(
        bind(&map, "public-client", Some("http://bar:8080/cb")).unwrap().redirect_uri,
        url("http://bar:8080/cb")
    );
    assert_eq!(
        bind(&map, "public-client", Some("HTTPS://FOO/authorized")).unwrap().redirect_uri,
        url("https://foo/authorized")
    );
}

#[test]
fn url_that_differs_is_a_mismatch() {
    let map = registry();
    for requested in [
        "https://attacker/cb",
        "https://foo/cb",
        "https://foo/authorized/",
        "https://foo/authorized?x=1",
        "https://foo/author",
        "https://foo/",
        "http://foo/authorized",
        "https://foo:8443/authorized",
        "https://secret/cb",
        "no url at all",
    ] {
        assert_eq!(
            bind(&map, "public-client", Some(requested)),
            Err(RegistrarError::RedirectMismatch),
            "{}",
            requested
        );
    }
}

#[test]
fn unknown_client_is_not_bound() {
    let map = registry();
    assert_eq!(bind(&map, "nobody", None), Err(RegistrarError::UnknownClient));
    assert_eq!(
        bind(&map, "nobody", Some("https://foo/authorized")),
        Err(RegistrarError::UnknownClient)
    );
    assert_eq!(
        map.bind("nobody".to_string(), Some(None)),
        Err(RegistrarError::UnknownClient)
    );
    assert_eq!(
        map.bind("public-client".to_string(), Some(None)),
        Err(RegistrarError::RedirectMismatch)
    );
}

fn negotiate(map: &ClientMap, id: &str, asked: Option<&str>) -> Result<String, RegistrarError> {
    let bound = BoundClient { client_id: id.to_string(), redirect_uri: url("https://foo/authorized") };
    map.negotiate(bound, asked.map(scope)).map(|grant| {
        assert_eq!(grant.client_id, id);
        assert_eq!(grant.redirect_uri.as_str(), "https://foo/authorized");
        grant.scope.to_string()
    })
}

#[test]
fn negotiate_keeps_recognized_tokens() {
    let map = registry();
    assert_eq!(
        negotiate(&map, "public-client", Some("account:read unknown-scope")),
        Ok("account:read".to_string())
    );
    assert_eq!(
        negotiate(&map, "public-client", Some("account:write account:follow x")),
        Ok("account:write".to_string())
    );
    assert_eq!(
        negotiate(&map, "public-client", Some("x account:write account:read")),
        Ok("account:read account:write".to_string())
    );
    assert_eq!(
        negotiate(&map, "public-client", Some("account:follow")),
        Ok("account:read".to_string())
    );
}

#[test]
fn negotiate_falls_back_to_the_default_scope() {
    let map = registry();
    assert_eq!(negotiate(&map, "public-client", None), Ok("account:read".to_string()));
    assert_eq!(negotiate(&map, "secret-client", None), Ok("account:write".to_string()));
    assert_eq!(
        negotiate(&map, "public-client", Some("unknown-scope")),
        Ok("account:read".to_string())
    );
    assert_eq!(negotiate(&map, "public-client", Some("")), Ok("account:read".to_string()));
    assert_eq!(negotiate(&map, "nobody", None), Err(RegistrarError::UnknownClient));
}

#[test]
fn confidential_client_passes_with_its_secret_only() {
    let map = registry();
    assert_eq!(map.check("secret-client", Some(b"correct horse")), Ok(()));
    assert_eq!(
        map.check("secret-client", Some(b"wrong horse")),
        Err(RegistrarError::AuthFailed)
    );
    assert_eq!(map.check("secret-client", Some(b"")), Err(RegistrarError::AuthFailed));
    assert_eq!(map.check("secret-client", None), Err(RegistrarError::AuthFailed));
}

#[test]
fn public_client_always_passes() {
    let map = registry();
    assert_eq!(map.check("public-client", None), Ok(()));
    assert_eq!(map.check("public-client", Some(b"anything")), Ok(()));
    assert_eq!(map.check("public-client", Some(b"")), Ok(()));
}

#[test]
fn unknown_client_fails_like_a_wrong_secret() {
    let map = registry();
    assert_eq!(map.check("nobody", None), Err(RegistrarError::AuthFailed));
    assert_eq!(map.check("nobody", Some(b"correct horse")), Err(RegistrarError::AuthFailed));
    assert_eq!(
        map.check("nobody", Some(b"x")),
        map.check("secret-client", Some(b"x"))
    );
}

#[test]
fn confidential_client_passes_under_argon2() {
    let mut map = ClientMap::new();
    assert_eq!(map.password_policy(), PasswordPolicy::Argon2);
    map.register_client(
        "c",
        "C",
        Client::confidential("c", url("https://c/cb"), Scope::new(), b"s3cret"),
    );
    let kept = map.get("c").unwrap().encoded_client();
    assert!(matches!(&kept.encoded_client, ClientType::Confidential { passdata } if passdata.as_slice() != b"s3cret"));
    assert_eq!(map.check("c", Some(b"s3cret")), Ok(()));
    assert_eq!(map.check("c", Some(b"s3cre7")), Err(RegistrarError::AuthFailed));
    assert_eq!(map.check("c", None), Err(RegistrarError::AuthFailed));
}

#[test]
fn registering_again_replaces_the_client() {
    let mut map = registry();
    assert_eq!(map.len(), 2);
    map.register_client(
        "public-client",
        "Renamed",
        Client::public("public-client", url("https://new/cb"), Scope::new()),
    );
    assert_eq!(map.len(), 2);
    assert_eq!(map.get("public-client").unwrap().name(), "Renamed");
    assert_eq!(
        bind(&map, "public-client", None).unwrap().redirect_uri.as_str(),
        "https://new/cb"
    );
    assert_eq!(
        bind(&map, "public-client", Some("https://foo/authorized")),
        Err(RegistrarError::RedirectMismatch)
    );
    assert!(map.get("nobody").is_none());
}

#[test]
fn policy_of_the_registry_can_be_changed() {
    let mut map = ClientMap::new();
    map.set_password_policy(PasswordPolicy::Plain);
    assert_eq!(map.password_policy(), PasswordPolicy::Plain);
    map.register_client(
        "c",
        "C",
        Client::confidential("c", url("https://c/cb"), Scope::new(), b"s"),
    );
    assert_eq!(map.check("c", Some(b"s")), Ok(()));
}

#[test]
fn registrar_errors_are_worded() {
    assert_eq!(RegistrarError::UnknownClient.to_string(), "the client is not registered");
    assert_eq!(RegistrarError::RedirectMismatch.to_string(), "the redirect url is not registered");
    assert_eq!(RegistrarError::AuthFailed.to_string(), "the client could not be authenticated");
    assert_eq!(RegistrarError::InternalError.to_string(), "an unexpected internal error occurred");
}
