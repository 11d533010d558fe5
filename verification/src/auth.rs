//! The credential codec: opaque bearer tokens, the store-facing key and
//! value wrappers derived from them, and the issuance event that pairs a
//! fresh token with the user it belongs to.

use vstd::prelude::*;

use crate::errors::AppError;
use crate::id::{is_valid_id_seq, UserId};
use crate::store::{RedisKey, RedisValue};

verus! {

/// An opaque bearer token: a client presents it to prove an
/// already-established identity.
#[derive(Debug)]
pub struct AccessToken(pub String);

impl View for AccessToken {
    type V = Seq<char>;

    open spec fn view(&self) -> Seq<char> {
        self.0@
    }
}

impl Clone for AccessToken {
    fn clone(&self) -> (r: AccessToken)
        ensures
            r == *self,
    {
        AccessToken(self.0.clone())
    }
}

impl PartialEq for AccessToken {
    fn eq(&self, other: &AccessToken) -> (r: bool) {
        self.0 == other.0
    }
}

impl vstd::std_specs::cmp::PartialEqSpecImpl for AccessToken {
    open spec fn obeys_eq_spec() -> bool {
        true
    }

    open spec fn eq_spec(&self, other: &AccessToken) -> bool {
        self@ == other@
    }
}

/// The store-facing lookup key derived from a bearer token. Ephemeral: it
/// exists only for the duration of a lookup or write.
#[derive(Debug)]
pub struct AuthorizationKey(String);

impl View for AuthorizationKey {
    type V = Seq<char>;

    closed spec fn view(&self) -> Seq<char> {
        self.0@
    }
}

/// The store-facing value wrapper around a user identifier.
#[derive(Debug)]
pub struct AuthorizationUserId(UserId);

impl View for AuthorizationUserId {
    type V = Seq<char>;

    closed spec fn view(&self) -> Seq<char> {
        self.0@
    }
}

/// A user record as the credential subsystem sees it: the identity and the
/// hash of the password, never the password itself.
#[derive(Debug)]
pub struct UserItem {
    pub user_id: UserId,
    pub password_hash: String,
}

/// The issuance event: a user identity paired with the freshly generated
/// token that now denotes it.
#[derive(Debug)]
pub struct CreateToken {
    pub user_id: UserId,
    pub access_token: String,
}

impl CreateToken {
    /// Issues a credential for `user_id`: the token is freshly generated
    /// here and never taken from any caller-supplied value. Persisting the
    /// pair is the caller's responsibility.
    pub fn new(user_id: UserId) -> (r: CreateToken)
        ensures
            r.user_id == user_id,
            is_valid_id_seq(r.access_token@),
    {
        let access_token = UserId::new().to_string();
        CreateToken { user_id, access_token }
    }
}

/// Splits an issuance event into the store-facing key/value pair: the key
/// wraps the token string, the value wraps the user identity.
pub fn from(event: CreateToken) -> (r: (AuthorizationKey, AuthorizationUserId))
    ensures
        r.0@ == event.access_token@,
        r.1@ == event.user_id@,
{
    (AuthorizationKey(event.access_token), AuthorizationUserId(event.user_id))
}

/// The key a token maps to: the same characters, rewrapped.
pub closed spec fn spec_key_of_token(t: AccessToken) -> AuthorizationKey {
    AuthorizationKey(t.0)
}

/// The token a key maps back to: the same characters, rewrapped.
pub closed spec fn spec_token_of_key(k: AuthorizationKey) -> AccessToken {
    AccessToken(k.0)
}

impl From<AccessToken> for AuthorizationKey {
    fn from(token: AccessToken) -> (r: AuthorizationKey) {
        AuthorizationKey(token.0)
    }
}

impl vstd::std_specs::convert::FromSpecImpl<AccessToken> for AuthorizationKey {
    open spec fn obeys_from_spec() -> bool {
        true
    }

    open spec fn from_spec(t: AccessToken) -> AuthorizationKey {
        spec_key_of_token(t)
    }
}

impl From<&AccessToken> for AuthorizationKey {
    fn from(token: &AccessToken) -> (r: AuthorizationKey) {
        AuthorizationKey(token.0.clone())
    }
}

impl vstd::std_specs::convert::FromSpecImpl<&AccessToken> for AuthorizationKey {
    open spec fn obeys_from_spec() -> bool {
        true
    }

    open spec fn from_spec(t: &AccessToken) -> AuthorizationKey {
        spec_key_of_token(*t)
    }
}

impl From<AuthorizationKey> for AccessToken {
    fn from(key: AuthorizationKey) -> (r: AccessToken) {
        AccessToken(key.0)
    }
}

impl vstd::std_specs::convert::FromSpecImpl<AuthorizationKey> for AccessToken {
    open spec fn obeys_from_spec() -> bool {
        true
    }

    open spec fn from_spec(k: AuthorizationKey) -> AccessToken {
        spec_token_of_key(k)
    }
}

/// Round-trip law: turning a bearer token into its lookup key and the key
/// back into a token gives back the very token, and the other way around.
pub proof fn lemma_token_key_roundtrip(t: AccessToken, k: AuthorizationKey)
    ensures
        spec_token_of_key(spec_key_of_token(t)) == t,
        spec_key_of_token(spec_token_of_key(k)) == k,
        spec_key_of_token(t)@ == t@,
        spec_token_of_key(k)@ == k@,
{
}

/// Injectivity of the key codec: distinct tokens give distinct keys, so two
/// sessions never collide in the store unless their tokens already did.
pub proof fn lemma_key_codec_injective(t1: AccessToken, t2: AccessToken)
    requires
        t1@ != t2@,
    ensures
        spec_key_of_token(t1)@ != spec_key_of_token(t2)@,
{
}

impl RedisKey for AuthorizationKey {
    type Value = AuthorizationUserId;

    /// The lookup string: the token's own characters.
    fn inner(&self) -> (r: String) {
        self.0.clone()
    }
}

impl RedisValue for AuthorizationUserId {
    /// A stored string decodes exactly when it is a canonical identifier.
    open spec fn spec_is_valid(s: Seq<char>) -> bool {
        is_valid_id_seq(s)
    }

    /// The storable string: the identifier's canonical form.
    fn inner(&self) -> (r: String) {
        self.0.to_string()
    }

    fn try_from_stored(s: &str) -> (r: Result<AuthorizationUserId, AppError>) {
        match UserId::from_str(s) {
            Ok(user_id) => Ok(AuthorizationUserId(user_id)),
            Err(e) => Err(e),
        }
    }
}

impl AuthorizationUserId {
    /// Parses a stored string as a user identity. Succeeds exactly on the
    /// canonical identifier form; everything else is a conversion error
    /// and never a panic or a default identity.
    pub fn try_from(s: String) -> (r: Result<AuthorizationUserId, AppError>)
        ensures
            r is Ok <==> is_valid_id_seq(s@),
            r is Ok ==> r->Ok_0@ == s@,
            r is Err ==> r->Err_0 is ConversionEntityError,
    {
        match UserId::from_str(s.as_str()) {
            Ok(user_id) => Ok(AuthorizationUserId(user_id)),
            Err(e) => Err(e),
        }
    }

    /// Recovers the wrapped user identity, consuming the wrapper.
    pub fn into_inner(self) -> (r: UserId)
        ensures
            r@ == self@,
    {
        self.0
    }
}

} // verus!
