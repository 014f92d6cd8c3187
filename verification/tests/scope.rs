use axum_oauth::oauth::primitives::scope::{ParseScopeErr, Scope};

fn scope(text: &str) -> Scope {
    Scope::from_str(text).unwrap()
}

#[test]
fn scope_is_written_in_dictionary_order() {
    assert_eq!(scope("write read admin").to_string(), "admin read write");
    assert_eq!(scope("b a").to_string(), scope("a b").to_string());
    assert_eq!(scope("ab a abc").to_string(), "a ab abc");
}

#[test]
fn scope_ignores_repeated_tokens_and_spaces() {
    let parsed = scope("  read   write read ");
    assert_eq!(parsed.len(), 2);
    assert_eq!(parsed.to_string(), "read write");
    assert_eq!(parsed, scope("write read"));
}

#[test]
fn empty_text_is_the_empty_scope() {
    let parsed = scope("");
    assert!(parsed.is_empty());
    assert_eq!(parsed.len(), 0);
    assert_eq!(parsed.to_string(), "");
    assert_eq!(parsed, Scope::new());
    assert!(scope("   ").is_empty());
}

#[test]
fn scope_refuses_the_first_invalid_character() {
    assert_eq!(
        Scope::from_str("read \"write\\"),
        Err(ParseScopeErr::InvalidCharacter('"'))
    );
    assert_eq!(
        Scope::from_str("a\\b\"c"),
        Err(ParseScopeErr::InvalidCharacter('\\'))
    );
    assert_eq!(
        Scope::from_str("read\twrite"),
        Err(ParseScopeErr::InvalidCharacter('\t'))
    );
    assert_eq!(
        Scope::from_str("re\u{e9}d \"x"),
        Err(ParseScopeErr::InvalidCharacter('\u{e9}'))
    );
    assert_eq!(
        Scope::from_str("ok \"x \u{e9}"),
        Err(ParseScopeErr::InvalidCharacter('"'))
    );
}

#[test]
fn scope_accepts_every_token_character() {
    let parsed = scope("!#[]~ account:read");
    assert!(parsed.contains("!#[]~"));
    assert!(parsed.contains("account:read"));
    assert!(!parsed.contains("account"));
}

#[test]
fn covers_is_set_containment() {
    let base = scope("cap1 cap2");
    let less = scope("cap1");
    let other = scope("cap1 cap3");
    assert!(base.covers(&less));
    assert!(base.covers(&base));
    assert!(!less.covers(&base));
    assert!(!base.covers(&other));
    assert!(!other.covers(&base));
    assert!(base.covers(&Scope::new()));
    assert!(Scope::new().covers(&Scope::new()));
    assert!(!Scope::new().covers(&less));
}

#[test]
fn union_holds_the_tokens_of_both() {
    let both = scope("read").union(&scope("write read"));
    assert_eq!(both.to_string(), "read write");
    assert_eq!(scope("b").union(&Scope::new()), scope("b"));
    assert_eq!(Scope::new().union(&scope("z a")).to_string(), "a z");
}

#[test]
fn with_token_adds_in_order() {
    let grown = Scope::new().with_token("m").with_token("a").with_token("z").with_token("m");
    assert_eq!(grown.tokens(), vec!["a".to_string(), "m".to_string(), "z".to_string()]);
}

#[test]
fn written_scope_reads_back() {
    let written = scope("zeta alpha mid");
    assert_eq!(Scope::from_str(&written.to_string()), Ok(written.clone()));
}
