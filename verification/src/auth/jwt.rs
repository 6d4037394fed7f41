use crate::auth::claims::{unix_now, Claims};
use crate::auth::errors::AuthError;
use jsonwebtoken::{DecodingKey, EncodingKey};
use vstd::prelude::*;

verus! {

/// The key that signs tokens.
#[verifier::external_type_specification]
#[verifier::external_body]
pub struct ExEncodingKey(jsonwebtoken::EncodingKey);

/// The key that checks the signature of tokens.
#[verifier::external_type_specification]
#[verifier::external_body]
pub struct ExDecodingKey(jsonwebtoken::DecodingKey);

/// The failure type of the token crate.
#[verifier::external_type_specification]
#[verifier::external_body]
pub struct ExTokenError(jsonwebtoken::errors::Error);

/// A copy of a signing key. Keys are opaque here: nothing is claimed of
/// the copy.
pub assume_specification[ <jsonwebtoken::EncodingKey as Clone>::clone ](
    key: &jsonwebtoken::EncodingKey,
) -> (r: jsonwebtoken::EncodingKey)
;

/// A copy of a checking key. Keys are opaque here: nothing is claimed of
/// the copy.
pub assume_specification[ <jsonwebtoken::DecodingKey as Clone>::clone ](
    key: &jsonwebtoken::DecodingKey,
) -> (r: jsonwebtoken::DecodingKey)
;

/// What signing the subject `sub` and the expiry `exp` under `key` yields:
/// the token, or nothing where the key cannot sign with the default header.
/// The key has no view, so it stands here as it is.
pub uninterp spec fn signed(sub: Seq<char>, exp: usize, key: jsonwebtoken::EncodingKey) -> Option<
    Seq<char>,
>;

/// Signs `claims` into a token.
///
/// Calls `jsonwebtoken::encode` with the default header on a JSON object
/// with the members `sub` and `exp`. The header is fixed and neither the
/// clock nor chance enters: the answer depends on the two claims and the
/// key alone, and the contract names it `signed`.
#[verifier::external_body]
pub fn create_token(claims: &Claims, key: &EncodingKey) -> (r: Result<
    String,
    jsonwebtoken::errors::Error,
>)
    ensures
        r matches Ok(token) ==> signed(claims.sub@, claims.exp, *key) == Some(token@),
        r is Err ==> signed(claims.sub@, claims.exp, *key) is None,
{
    let mut payload = serde_json::Map::new();
    payload.insert("sub".to_string(), serde_json::Value::from(claims.sub.as_str()));
    payload.insert("exp".to_string(), serde_json::Value::from(claims.exp));
    jsonwebtoken::encode(&jsonwebtoken::Header::default(), &payload, key)
}

/// Reads the claims out of a token.
///
/// Calls `jsonwebtoken::decode` with the default validation, which checks
/// the signature and refuses a token more than a minute past its expiry by
/// the system clock (and panics on a clock set before the epoch), and reads
/// the members `sub` and `exp` of the payload by `serde_json::from_value`.
/// The answer depends on the key and the clock, so nothing is claimed of it.
#[verifier::external_body]
pub fn decode_token(token: &str, key: &DecodingKey) -> (r: Result<
    Claims,
    jsonwebtoken::errors::Error,
>) {
    let validation = jsonwebtoken::Validation::default();
    let data = jsonwebtoken::decode::<serde_json::Value>(token, key, &validation)?;
    let sub: String = serde_json::from_value(data.claims["sub"].clone())?;
    let exp: usize = serde_json::from_value(data.claims["exp"].clone())?;
    Ok(Claims { sub, exp })
}

/// What an attempt to sign is worth: the token, or a failure of token
/// creation whatever the signing crate reported.
pub open spec fn issued(signed: Result<String, jsonwebtoken::errors::Error>) -> Result<
    String,
    AuthError,
> {
    match signed {
        Ok(token) => Ok(token),
        Err(_) => Err(AuthError::TokenCreation),
    }
}

/// Hands a signed token on; a failure to sign becomes a failure of token
/// creation.
pub fn issue_outcome(signed: Result<String, jsonwebtoken::errors::Error>) -> (r: Result<
    String,
    AuthError,
>)
    ensures
        r == issued(signed),
{
    match signed {
        Ok(token) => Ok(token),
        Err(_) => Err(AuthError::TokenCreation),
    }
}

/// What a decoded token is worth at the second `now`: its claims, unless
/// decoding failed or the claims are past their expiry.
pub open spec fn admitted(decoded: Option<Claims>, now: usize) -> Result<Claims, AuthError> {
    match decoded {
        Some(claims) => if claims.expired_at(now) {
            Err(AuthError::InvalidToken)
        } else {
            Ok(claims)
        },
        None => Err(AuthError::InvalidToken),
    }
}

/// Admits decoded claims at the second `now` unless they are past their
/// expiry; a token that did not decode is invalid.
pub fn admit_claims(decoded: Option<Claims>, now: usize) -> (r: Result<Claims, AuthError>)
    ensures
        r == admitted(decoded, now),
{
    match decoded {
        Some(claims) => {
            if claims.is_expired_at(now) {
                Err(AuthError::InvalidToken)
            } else {
                Ok(claims)
            }
        },
        None => Err(AuthError::InvalidToken),
    }
}

/// A token issued thirty-one minutes ago, or earlier, is invalid whatever
/// else holds of it.
pub proof fn lemma_stale_token_refused(username: String, issued: usize, now: usize)
    requires
        issued + 31 * 60 <= now,
    ensures
        admitted(Some(Claims { sub: username, exp: Claims::expiry_after(issued) }), now) == Err::<
            Claims,
            AuthError,
        >(AuthError::InvalidToken),
{
}

/// Issues and reads tokens under one pair of keys.
#[derive(Clone)]
pub struct JwtProcessor {
    encoding_key: EncodingKey,
    decoding_key: DecodingKey,
}

impl JwtProcessor {
    /// The key this processor signs with.
    pub closed spec fn encoding_key(&self) -> EncodingKey {
        self.encoding_key
    }

    /// The key this processor checks signatures with.
    pub closed spec fn decoding_key(&self) -> DecodingKey {
        self.decoding_key
    }

    /// A processor that signs with `encoding_key` and checks with
    /// `decoding_key`.
    pub fn new(encoding_key: EncodingKey, decoding_key: DecodingKey) -> (r: Self)
        ensures
            r.encoding_key() == encoding_key,
            r.decoding_key() == decoding_key,
    {
        Self { encoding_key, decoding_key }
    }

    /// A token that carries `claims`, signed with this processor's key: the
    /// token that signing yields, or `TokenCreation` exactly where signing
    /// yields none.
    pub fn create_token(&self, claims: &Claims) -> (r: Result<String, AuthError>)
        ensures
            r matches Err(e) ==> e == AuthError::TokenCreation,
            r matches Ok(token) ==> signed(claims.sub@, claims.exp, self.encoding_key()) == Some(
                token@,
            ),
            r is Err ==> signed(claims.sub@, claims.exp, self.encoding_key()) is None,
    {
        issue_outcome(create_token(claims, &self.encoding_key))
    }

    /// The claims of a token that is signed under this processor's key,
    /// well formed and not past its expiry.
    pub fn decode_token(&self, token: &str) -> (r: Result<Claims, AuthError>)
        ensures
            r matches Err(e) ==> e == AuthError::InvalidToken,
    {
        let decoded = match decode_token(token, &self.decoding_key) {
            Ok(claims) => Some(claims),
            Err(_) => None,
        };
        admit_claims(decoded, unix_now())
    }
}

} // verus!
