use lending_core::auth::{from, AccessToken, AuthorizationKey, CreateToken};
use lending_core::errors::AppError;
use lending_core::id::UserId;
use lending_core::store::KvStore;

#[test]
fn put_then_get_returns_the_identity() {
    let mut store = KvStore::new();
    let user = UserId::new();
    let event = CreateToken::new(user.clone());
    let token = AccessToken(event.access_token.clone());
    let (key, value) = from(event);
    store.put(&key, &value);

    let lookup = AuthorizationKey::from(&token);
    let got = store.get(&lookup).unwrap().unwrap();
    assert_eq!(got.into_inner(), user);
}

#[test]
fn absent_key_is_a_normal_none() {
    let store = KvStore::new();
    let key = AuthorizationKey::from(AccessToken(String::from("no-such-token")));
    let got = store.get(&key).unwrap();
    assert!(got.is_none());
}

#[test]
fn put_with_existing_key_overwrites() {
    let mut store = KvStore::new();
    let token = AccessToken(String::from("shared-token"));

    let first = UserId::new();
    let second = UserId::new();
    let (k1, v1) = from(CreateToken {
        user_id: first,
        access_token: token.0.clone(),
    });
    store.put(&k1, &v1);
    let (k2, v2) = from(CreateToken {
        user_id: second.clone(),
        access_token: token.0.clone(),
    });
    store.put(&k2, &v2);

    let got = store.get(&AuthorizationKey::from(&token)).unwrap().unwrap();
    assert_eq!(got.into_inner(), second);

    // one value per key: a single delete leaves nothing behind
    store.delete(&AuthorizationKey::from(&token));
    assert!(store.get(&AuthorizationKey::from(&token)).unwrap().is_none());
}

#[test]
fn delete_removes_the_session() {
    let mut store = KvStore::new();
    let user = UserId::new();
    let event = CreateToken::new(user);
    let token = AccessToken(event.access_token.clone());
    let (key, value) = from(event);
    store.put(&key, &value);

    store.delete(&AuthorizationKey::from(&token));
    assert!(store.get(&AuthorizationKey::from(&token)).unwrap().is_none());
}

#[test]
fn deleting_an_absent_key_changes_nothing() {
    let mut store = KvStore::new();
    let user = UserId::new();
    let event = CreateToken::new(user.clone());
    let token = AccessToken(event.access_token.clone());
    let (key, value) = from(event);
    store.put(&key, &value);

    store.delete(&AuthorizationKey::from(AccessToken(String::from("other"))));
    let got = store.get(&AuthorizationKey::from(&token)).unwrap().unwrap();
    assert_eq!(got.into_inner(), user);
}

#[test]
fn malformed_stored_data_is_an_error_not_absence() {
    let mut store = KvStore::new();
    store.put_raw(String::from("corrupted-token"), String::from("garbage"));

    let key = AuthorizationKey::from(AccessToken(String::from("corrupted-token")));
    let got = store.get(&key);
    assert!(matches!(got, Err(AppError::ConversionEntityError(_))));
}
