use argon2::password_hash::SaltString;
use argon2::{Argon2, PasswordHasher};
use myweb::auth::{
    basic_authentication, credential_decision, validate_credentials, AuthError, AuthHeaderError,
    StoredCredentials, UserRecord, UserStore,
};
use myweb::login::{login_redirect, LoginError};

fn header(s: &str) -> Vec<u8> {
    s.as_bytes().to_vec()
}

#[test]
fn basic_credentials_are_read() {
    // "user:pa:ss" in base64
    let h = header("Basic dXNlcjpwYTpzcw==");
    let c = basic_authentication(Some(&h)).ok().unwrap();
    assert_eq!(c.username, "user");
    assert_eq!(c.password, "pa:ss");
}

#[test]
fn basic_header_errors() {
    assert_eq!(basic_authentication(None).err(), Some(AuthHeaderError::Missing));
    let h = vec![b'B', 0x01];
    assert_eq!(basic_authentication(Some(&h)).err(), Some(AuthHeaderError::NotVisibleAscii));
    let h = header("Bearer dXNlcjpwYXNz");
    assert_eq!(basic_authentication(Some(&h)).err(), Some(AuthHeaderError::NotBasicScheme));
    let h = header("Basic !!!");
    assert_eq!(basic_authentication(Some(&h)).err(), Some(AuthHeaderError::NotBase64));
    // [0xff, 0xfe] in base64
    let h = header("Basic //4=");
    assert_eq!(basic_authentication(Some(&h)).err(), Some(AuthHeaderError::NotUtf8));
    // "user" in base64
    let h = header("Basic dXNlcg==");
    assert_eq!(basic_authentication(Some(&h)).err(), Some(AuthHeaderError::MissingPassword));
    assert_eq!(
        AuthHeaderError::MissingPassword.message(),
        "A password must be provided in 'Basic' auth."
    );
}

fn hash_of(password: &str) -> String {
    let salt = SaltString::encode_b64(b"a fixed salt!!").unwrap();
    Argon2::default().hash_password(password.as_bytes(), &salt).unwrap().to_string()
}

#[test]
fn credentials_are_validated_against_the_stored_hash() {
    let stored = StoredCredentials { user_id: 42, password_hash: hash_of("right") };
    assert_eq!(validate_credentials(Some(stored), "right"), Ok(42));
    let stored = StoredCredentials { user_id: 42, password_hash: hash_of("right") };
    assert_eq!(validate_credentials(Some(stored), "wrong"), Err(AuthError::InvalidCredentials));
}

#[test]
fn unknown_user_and_wrong_password_fail_alike() {
    let stored = StoredCredentials { user_id: 1, password_hash: hash_of("right") };
    let wrong = validate_credentials(Some(stored), "wrong");
    let unknown = validate_credentials(None, "wrong");
    assert_eq!(wrong, unknown);
    assert_eq!(unknown, Err(AuthError::InvalidCredentials));
}

#[test]
fn malformed_stored_hash_is_unexpected() {
    let stored = StoredCredentials { user_id: 1, password_hash: "not a hash".to_string() };
    assert_eq!(validate_credentials(Some(stored), "x"), Err(AuthError::UnexpectedError));
}

#[test]
fn decisions_for_each_verdict() {
    assert_eq!(credential_decision(Some(5), Some(true)), Ok(5));
    assert_eq!(credential_decision(None, Some(true)), Err(AuthError::InvalidCredentials));
    assert_eq!(credential_decision(Some(5), Some(false)), Err(AuthError::InvalidCredentials));
    assert_eq!(credential_decision(None, None), Err(AuthError::UnexpectedError));
}

#[test]
fn login_redirects() {
    let ok = login_redirect(Ok(3));
    assert_eq!(ok.location, "/");
    assert!(ok.flash.is_none());
    let bad = login_redirect(Err(AuthError::InvalidCredentials));
    assert_eq!(bad.location, "/login");
    assert_eq!(bad.flash, Some("Authentication failed".to_string()));
    let err = login_redirect(Err(AuthError::UnexpectedError));
    assert_eq!(err.flash, Some("Something went wrong".to_string()));
    assert_eq!(LoginError::from_auth_error(AuthError::InvalidCredentials), LoginError::AuthError);
}

#[test]
fn operators_are_looked_up_by_unique_username() {
    let mut users = UserStore::new();
    assert!(users.add(UserRecord { user_id: 1, username: "op".to_string(), password_hash: "h1".to_string() }));
    assert!(!users.add(UserRecord { user_id: 2, username: "op".to_string(), password_hash: "h2".to_string() }));
    let c = users.lookup("op").unwrap();
    assert_eq!(c.user_id, 1);
    assert_eq!(c.password_hash, "h1");
    assert!(users.lookup("nobody").is_none());
}

#[test]
fn unusable_stored_hash_is_unexpected() {
    let stored = StoredCredentials {
        user_id: 1,
        password_hash: "$foo$v=19$m=15000,t=2,p=1$gZiV/M1gPc22ElAH/Jh1Hw$CWOrkoo7oJBQ/iyh7uJ0LO2aLEfrHwTWllSAxT0zRno".to_string(),
    };
    assert_eq!(validate_credentials(Some(stored), "x"), Err(AuthError::UnexpectedError));
}
