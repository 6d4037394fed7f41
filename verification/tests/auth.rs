use jsonwebtoken::{DecodingKey, EncodingKey};
use remind_core::auth::claims::TOKEN_VALIDITY_SECS;
use remind_core::auth::jwt::{admit_claims, issue_outcome};
use remind_core::services::user::authenticate;
use remind_core::{
    create_token, decode_token, hash_password, verify_password, AuthError, Claims, CoreError,
    JwtProcessor, User,
};

fn now() -> usize {
    chrono::Utc::now().timestamp() as usize
}

fn processor(secret: &str) -> JwtProcessor {
    JwtProcessor::new(
        EncodingKey::from_secret(secret.as_bytes()),
        DecodingKey::from_secret(secret.as_bytes()),
    )
}

#[test]
fn a_token_lives_half_an_hour() {
    assert_eq!(TOKEN_VALIDITY_SECS, 1800);
    let claims = Claims::issued_at("ann".to_string(), 1_700_000_000);
    assert_eq!(claims.sub, "ann");
    assert_eq!(claims.exp, 1_700_001_800);
    assert_eq!(Claims::issued_at("ann".to_string(), 0).exp, 1800);
    assert_eq!(Claims::issued_at("ann".to_string(), usize::MAX).exp, 1799);
    assert_eq!(Claims::issued_at("ann".to_string(), usize::MAX - 1800).exp, usize::MAX);
    assert_eq!(Claims::issued_at("ann".to_string(), usize::MAX - 1799).exp, 0);
}

#[test]
fn new_claims_expire_half_an_hour_from_now() {
    let before = now();
    let claims = Claims::new("ann".to_string());
    let after = now();
    assert_eq!(claims.sub, "ann");
    assert!(before + 1800 <= claims.exp && claims.exp <= after + 1800);
}

#[test]
fn expiry_is_strict() {
    let claims = Claims::issued_at("ann".to_string(), 1000);
    assert!(!claims.is_expired_at(1000));
    assert!(!claims.is_expired_at(2799));
    assert!(!claims.is_expired_at(2800));
    assert!(claims.is_expired_at(2801));
    assert!(claims.is_expired_at(1000 + 31 * 60));
}

#[test]
fn admit_claims_values() {
    let fresh = admit_claims(Some(Claims::issued_at("ann".to_string(), 1000)), 1000 + 29 * 60);
    let fresh = fresh.unwrap();
    assert_eq!((fresh.sub.as_str(), fresh.exp), ("ann", 2800));
    let on_time = admit_claims(Some(Claims::issued_at("ann".to_string(), 1000)), 1000 + 30 * 60);
    assert!(on_time.is_ok());
    let stale = admit_claims(Some(Claims::issued_at("ann".to_string(), 1000)), 1000 + 31 * 60);
    assert_eq!(stale.unwrap_err(), AuthError::InvalidToken);
    assert_eq!(admit_claims(None, 0).unwrap_err(), AuthError::InvalidToken);
}

#[test]
fn a_token_issued_thirty_one_minutes_ago_is_invalid() {
    let jwt = processor("somesecret");
    let issued = now() - 31 * 60;
    let token = jwt.create_token(&Claims::issued_at("ann".to_string(), issued)).unwrap();
    assert_eq!(jwt.decode_token(&token).unwrap_err(), AuthError::InvalidToken);

    let long_ago = jwt.create_token(&Claims::issued_at("ann".to_string(), now() - 7200)).unwrap();
    assert_eq!(jwt.decode_token(&long_ago).unwrap_err(), AuthError::InvalidToken);

    let recent = jwt.create_token(&Claims::issued_at("ann".to_string(), now() - 29 * 60)).unwrap();
    assert_eq!(jwt.decode_token(&recent).unwrap().sub, "ann");
}

#[test]
fn a_token_round_trips_under_its_key() {
    let jwt = processor("somesecret");
    let claims = Claims::new("testUsername".to_string());
    let token = jwt.create_token(&claims).unwrap();
    assert_ne!(token, "testUsername");
    assert_eq!(token.split('.').count(), 3);
    let read = jwt.decode_token(&token).unwrap();
    assert_eq!(read.sub, claims.sub);
    assert_eq!(read.exp, claims.exp);
    let copy = jwt.clone();
    assert_eq!(copy.decode_token(&token).unwrap().sub, "testUsername");
}

#[test]
fn a_token_is_invalid_under_another_key_or_when_malformed() {
    let jwt = processor("somesecret");
    let other = processor("othersecret");
    let token = jwt.create_token(&Claims::new("ann".to_string())).unwrap();
    assert_eq!(other.decode_token(&token).unwrap_err(), AuthError::InvalidToken);
    assert_eq!(jwt.decode_token("a.jwt.token").unwrap_err(), AuthError::InvalidToken);
    assert_eq!(jwt.decode_token("").unwrap_err(), AuthError::InvalidToken);
    let mut tampered = token.clone();
    tampered.push('x');
    assert_eq!(jwt.decode_token(&tampered).unwrap_err(), AuthError::InvalidToken);
}

#[test]
fn the_free_functions_sign_and_read() {
    let key = EncodingKey::from_secret(b"somesecret");
    let claims = Claims::issued_at("ann".to_string(), now());
    let token = create_token(&claims, &key).unwrap();
    let read = decode_token(&token, &DecodingKey::from_secret(b"somesecret")).unwrap();
    assert_eq!((read.sub.as_str(), read.exp), ("ann", claims.exp));
    assert!(decode_token(&token, &DecodingKey::from_secret(b"other")).is_err());
    assert!(create_token(&claims, &EncodingKey::from_rsa_der(&[1, 2, 3])).is_err());
}

#[test]
fn a_key_that_cannot_sign_is_a_token_creation_failure() {
    let jwt = JwtProcessor::new(
        EncodingKey::from_rsa_der(&[1, 2, 3]),
        DecodingKey::from_secret(b"somesecret"),
    );
    let r = jwt.create_token(&Claims::new("ann".to_string()));
    assert_eq!(r.unwrap_err(), AuthError::TokenCreation);
}

#[test]
fn a_digest_accepts_its_password_only() {
    let digest = hash_password("password".as_bytes()).unwrap();
    assert_ne!(digest, "password");
    assert!(digest.starts_with("$argon2"));
    assert!(verify_password("password".to_string(), digest.clone()).is_ok());
    assert!(verify_password("fakePassword".to_string(), digest.clone()).is_err());
    assert!(verify_password("password".to_string(), "password".to_string()).is_err());
    assert!(verify_password("password".to_string(), String::new()).is_err());
    // Two digests of one password differ by their salt and both accept it.
    let again = hash_password("password".as_bytes()).unwrap();
    assert_ne!(digest, again);
    assert!(verify_password("password".to_string(), again).is_ok());
}

#[test]
fn authenticate_checks_the_digest_of_the_found_user() {
    let user = User {
        id: 1,
        username: "ann".to_string(),
        email: "ann@example.com".to_string(),
        password: hash_password("password".as_bytes()).unwrap(),
    };
    let wrong = CoreError::AuthError(AuthError::WrongCredentials);
    assert_eq!(authenticate(Some(user.clone()), "password".to_string()).unwrap().id, 1);
    assert_eq!(authenticate(Some(user), "fakePassword".to_string()).unwrap_err(), wrong);
    assert_eq!(authenticate(None, "password".to_string()).unwrap_err(), wrong);
}

#[test]
fn a_failure_to_sign_is_a_token_creation_failure() {
    assert_eq!(issue_outcome(Ok("a.b.c".to_string())), Ok("a.b.c".to_string()));
    assert_eq!(issue_outcome(Ok(String::new())), Ok(String::new()));
    let refused = jsonwebtoken::errors::Error::from(jsonwebtoken::errors::ErrorKind::InvalidAlgorithm);
    assert_eq!(issue_outcome(Err(refused)), Err(AuthError::TokenCreation));
    let other = jsonwebtoken::errors::Error::from(jsonwebtoken::errors::ErrorKind::InvalidKeyFormat);
    assert_eq!(issue_outcome(Err(other)), Err(AuthError::TokenCreation));
}

#[test]
fn signing_depends_on_the_claims_and_the_key_alone() {
    let jwt = processor("somesecret");
    let claims = Claims::issued_at("ann".to_string(), 1_700_000_000);
    let first = jwt.create_token(&claims).unwrap();
    let second = jwt.create_token(&claims).unwrap();
    assert_eq!(first, second);
    let copy = jwt.clone().create_token(&claims.clone()).unwrap();
    assert_eq!(first, copy);

    let other_name = jwt.create_token(&Claims::issued_at("bob".to_string(), 1_700_000_000));
    assert_ne!(other_name.unwrap(), first);
    let other_time = jwt.create_token(&Claims::issued_at("ann".to_string(), 1_700_000_001));
    assert_ne!(other_time.unwrap(), first);
    let other_key = processor("othersecret").create_token(&claims).unwrap();
    assert_ne!(other_key, first);

    let key = EncodingKey::from_secret(b"somesecret");
    assert_eq!(create_token(&claims, &key).unwrap(), first);
}
