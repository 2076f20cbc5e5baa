use stamon::auth::{hash, login_decision, register_allowed, token_from_sources, verify_password,
    AuthError, Claims, LoginOutcome};
use stamon::status::UserRole;

#[test]
fn test_hash_password() {
    let password = "test_password".to_string();
    let hashed = hash(password.clone()).unwrap();

    // Hash should not be empty
    assert!(!hashed.is_empty());

    // Hash should not equal the original password
    assert_ne!(hashed, password);

    // Hash should start with argon2 identifier
    assert!(hashed.starts_with("$argon2"));
}

#[test]
fn test_hash_different_passwords() {
    let password1 = "password1".to_string();
    let password2 = "password2".to_string();

    let hash1 = hash(password1).unwrap();
    let hash2 = hash(password2).unwrap();

    // Different passwords should produce different hashes
    assert_ne!(hash1, hash2);
}

#[test]
fn test_hash_same_password_different_salt() {
    let password = "same_password".to_string();

    let hash1 = hash(password.clone()).unwrap();
    let hash2 = hash(password).unwrap();

    // Same password should produce different hashes due to different salts
    assert_ne!(hash1, hash2);
}

#[test]
fn test_verify_password_correct() {
    let password = "test_password";
    let hashed = hash(password.to_string()).unwrap();

    assert!(verify_password(password, &hashed));
}

#[test]
fn test_verify_password_incorrect() {
    let password = "test_password";
    let wrong_password = "wrong_password";
    let hashed = hash(password.to_string()).unwrap();

    assert!(!verify_password(wrong_password, &hashed));
}

#[test]
fn test_verify_password_empty() {
    let password = "test_password";
    let empty_password = "";
    let hashed = hash(password.to_string()).unwrap();

    assert!(!verify_password(empty_password, &hashed));
}

#[test]
fn test_auth_error_display() {
    let missing_creds = AuthError::MissingCredentials;
    let invalid_token = AuthError::InvalidToken;

    assert!(!format!("{:?}", missing_creds).is_empty());
    assert!(!format!("{:?}", invalid_token).is_empty());
}

#[test]
fn auth_error_responses() {
    assert_eq!(AuthError::MissingCredentials.status_code(), 403);
    assert_eq!(AuthError::InvalidToken.status_code(), 403);
    assert_eq!(AuthError::MissingCredentials.message(), "Missing credentials");
    assert_eq!(AuthError::InvalidToken.message(), "Invalid token");
}

#[test]
fn claims_lifetime() {
    let c = Claims::new(7, UserRole::Viewer, 1_000);
    assert_eq!(c.user_id, 7);
    assert_eq!(c.issued_at, 1_000);
    assert_eq!(c.expiry, 4_600);
    assert!(!c.is_expired(4_599));
    assert!(c.is_expired(4_600));
}

#[test]
fn token_source_order() {
    let bearer = token_from_sources(Some("b".to_string()), Some("c".to_string()));
    assert_eq!(bearer.unwrap(), "b");
    let cookie = token_from_sources(None, Some("c".to_string()));
    assert_eq!(cookie.unwrap(), "c");
    let neither = token_from_sources(None, None);
    assert_eq!(neither.unwrap_err(), AuthError::MissingCredentials);
}

#[test]
fn login_decision_paths() {
    let stored = hash("pw".to_string()).unwrap();

    // no user base yet: redirect to registration
    assert!(matches!(
        login_decision(false, None, "pw", 10),
        LoginOutcome::RedirectRegister
    ));
    // unknown name: redirect to registration
    assert!(matches!(
        login_decision(true, None, "pw", 10),
        LoginOutcome::RedirectRegister
    ));
    // wrong password
    assert!(matches!(
        login_decision(true, Some((1, stored.clone())), "other", 10),
        LoginOutcome::InvalidCredentials
    ));
    // correct password issues admin claims stamped at now
    match login_decision(true, Some((1, stored)), "pw", 10) {
        LoginOutcome::Success(c) => {
            assert_eq!(c.user_id, 1);
            assert!(matches!(c.role, UserRole::Admin));
            assert_eq!(c.issued_at, 10);
            assert_eq!(c.expiry, 3610);
        }
        _ => panic!("expected a successful login"),
    }
}

#[test]
fn registration_only_bootstraps() {
    assert!(register_allowed(false));
    assert!(!register_allowed(true));
}
