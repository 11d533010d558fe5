use std::collections::HashSet;

use lending_core::auth::{from, AccessToken, AuthorizationKey, AuthorizationUserId, CreateToken};
use lending_core::errors::AppError;
use lending_core::id::UserId;

#[test]
fn user_id_string_roundtrip() {
    let u = UserId::new();
    let s = u.to_string();
    let parsed = UserId::from_str(s.as_str()).unwrap();
    assert_eq!(parsed, u);
}

#[test]
fn authorization_user_id_roundtrip() {
    let u = UserId::new();
    let stored = AuthorizationUserId::try_from(u.to_string()).unwrap();
    assert_eq!(stored.into_inner(), u);
}

#[test]
fn access_token_key_roundtrip() {
    let t = AccessToken(String::from("3f2b8c91-aa10-4a6f-9c3d-5e7b2d8401ac"));
    let key = AuthorizationKey::from(t.clone());
    let back = AccessToken::from(key);
    assert_eq!(back, t);
}

#[test]
fn access_token_key_roundtrip_opaque() {
    let t = AccessToken(String::from("any opaque bearer string, not an id"));
    let back = AccessToken::from(AuthorizationKey::from(&t));
    assert_eq!(back, t);
}

#[test]
fn conversion_failure_is_typed_error() {
    let r = AuthorizationUserId::try_from(String::from("not-a-valid-id"));
    assert!(matches!(r, Err(AppError::ConversionEntityError(_))));
}

#[test]
fn uppercase_form_is_rejected() {
    let r = UserId::from_str("3F2B8C91-AA10-4A6F-9C3D-5E7B2D8401AC");
    assert!(matches!(r, Err(AppError::ConversionEntityError(_))));
}

#[test]
fn canonical_literal_is_accepted() {
    let u = UserId::from_str("3f2b8c91-aa10-4a6f-9c3d-5e7b2d8401ac").unwrap();
    assert_eq!(u.to_string(), "3f2b8c91-aa10-4a6f-9c3d-5e7b2d8401ac");
}

#[test]
fn token_uniqueness() {
    let mut seen: HashSet<String> = HashSet::new();
    for _ in 0..10_000 {
        let user = UserId::new();
        let event = CreateToken::new(user);
        assert!(seen.insert(event.access_token.clone()));
    }
    assert_eq!(seen.len(), 10_000);
}

#[test]
fn issued_token_pairs_the_user() {
    let user = UserId::new();
    let event = CreateToken::new(user.clone());
    assert_eq!(event.user_id, user);
    // the generated token is itself in the canonical identifier form
    assert!(UserId::from_str(event.access_token.as_str()).is_ok());
}

#[test]
fn from_splits_event_into_key_and_value() {
    let user = UserId::new();
    let event = CreateToken::new(user.clone());
    let token = event.access_token.clone();
    let (key, value) = from(event);
    assert_eq!(AccessToken::from(key).0, token);
    assert_eq!(value.into_inner(), user);
}
